use crate::item::Item;
use crate::text::text_of;
use vstd::prelude::*;

verus! {

/// A ledger as a mathematical map from item name to the quantity held.
pub type Stock = Map<Seq<char>, int>;

/// Every quantity of a valid stock is positive and fits the machine integer.
pub open spec fn stock_valid(stock: Stock) -> bool {
    forall|name: Seq<char>| #[trigger]
        stock.dom().contains(name) ==> 0 < stock[name] <= i32::MAX
}

/// The quantity held of `name`; zero where the stock has no entry for it.
pub open spec fn quantity_in(stock: Stock, name: Seq<char>) -> int {
    if stock.dom().contains(name) {
        stock[name]
    } else {
        0
    }
}

/// The stock after adding `amount` of `name`. A non-positive amount adds nothing.
pub open spec fn stock_after_add(stock: Stock, name: Seq<char>, amount: int) -> Stock {
    if amount <= 0 {
        stock
    } else {
        stock.insert(name, quantity_in(stock, name) + amount)
    }
}

/// Whether `amount` of `name` can be taken out of the stock: the item is
/// held, the stock covers the amount, and what is left fits the machine integer.
pub open spec fn can_remove(stock: Stock, name: Seq<char>, amount: int) -> bool {
    &&& stock.dom().contains(name)
    &&& amount <= stock[name]
    &&& stock[name] - amount <= i32::MAX
}

/// The stock after an attempt to take `amount` of `name` out of it. A
/// refused removal changes nothing; a removal down to zero deletes the entry.
pub open spec fn stock_after_remove(stock: Stock, name: Seq<char>, amount: int) -> Stock {
    if !can_remove(stock, name, amount) {
        stock
    } else if stock[name] == amount {
        stock.remove(name)
    } else {
        stock.insert(name, stock[name] - amount)
    }
}

/// Removing what the stock covers succeeds and leaves the difference;
/// removing more than is held is refused and leaves the stock as it was.
///
/// A removal is also refused where the difference would exceed the machine
/// integer, which only a negative `amount` can reach.
pub proof fn law_remove_leaves_difference(stock: Stock, name: Seq<char>, held: int, amount: int)
    requires
        stock_valid(stock),
        stock.dom().contains(name),
        stock[name] == held,
    ensures
        amount <= held && held - amount <= i32::MAX ==> can_remove(stock, name, amount)
            && quantity_in(stock_after_remove(stock, name, amount), name) == held - amount,
        amount <= held && held - amount <= i32::MAX ==> forall|other: Seq<char>|
            other != name ==> quantity_in(stock_after_remove(stock, name, amount), other)
                == quantity_in(stock, other),
        amount > held ==> !can_remove(stock, name, amount) && stock_after_remove(
            stock,
            name,
            amount,
        ) == stock,
{
}

/// Adding an amount and then removing the same amount of the same item
/// returns the stock to what it was, and the removal succeeds where the
/// amount is positive.
///
/// A negative amount of an item that is held is left out: `add` ignores it,
/// while `remove` takes it as an increase.
pub proof fn law_add_then_remove_restores(stock: Stock, name: Seq<char>, amount: int)
    requires
        stock_valid(stock),
        amount >= 0 || !stock.dom().contains(name),
    ensures
        stock_after_remove(stock_after_add(stock, name, amount), name, amount) == stock,
        amount > 0 ==> can_remove(stock_after_add(stock, name, amount), name, amount),
{
    let added = stock_after_add(stock, name, amount);
    let back = stock_after_remove(added, name, amount);
    assert(back =~= stock);
}

/// One line of a ledger: a good and how many of it are held.
pub struct LedgerEntry {
    pub item: Item,
    pub quantity: i32,
}

/// Per-actor holdings, one entry per item name.
pub struct Ledger {
    entries: Vec<LedgerEntry>,
}

/// Whether some entry of `entries` is for the item named `name`.
pub open spec fn listed(entries: Seq<LedgerEntry>, name: Seq<char>) -> bool {
    exists|i: int| 0 <= i < entries.len() && #[trigger] entries[i].item.name@ == name
}

/// The position of the entry for `name`, where there is one.
pub open spec fn entry_position(entries: Seq<LedgerEntry>, name: Seq<char>) -> int {
    choose|i: int| 0 <= i < entries.len() && #[trigger] entries[i].item.name@ == name
}

/// No two entries share a name and every quantity is positive.
pub open spec fn entries_wf(entries: Seq<LedgerEntry>) -> bool {
    &&& forall|i: int| 0 <= i < entries.len() ==> (#[trigger] entries[i]).quantity > 0
    &&& forall|i: int, j: int|
        0 <= i < j < entries.len() ==> (#[trigger] entries[i]).item.name@ != (
        #[trigger] entries[j]).item.name@
}

/// The entries after adding `amount` of `item`: the entry for the item's
/// name grows by the amount and keeps its record and its place; where there
/// is none, a new entry comes last. A non-positive amount adds nothing.
pub open spec fn entries_after_add(entries: Seq<LedgerEntry>, item: Item, amount: i32) -> Seq<
    LedgerEntry,
> {
    if amount <= 0 {
        entries
    } else if listed(entries, item.name@) {
        let at = entry_position(entries, item.name@);
        entries.update(
            at,
            LedgerEntry { item: entries[at].item, quantity: (entries[at].quantity + amount) as i32 },
        )
    } else {
        entries.push(LedgerEntry { item, quantity: amount })
    }
}

/// The entries after an attempt to take `amount` of the item named `name`
/// out: the entry shrinks by the amount and keeps its record and its place,
/// or goes where nothing is left; a refused removal changes nothing.
pub open spec fn entries_after_remove(entries: Seq<LedgerEntry>, name: Seq<char>, amount: i32) -> Seq<
    LedgerEntry,
> {
    if !listed(entries, name) {
        entries
    } else {
        let at = entry_position(entries, name);
        let held = entries[at].quantity;
        if amount > held || held - amount > i32::MAX {
            entries
        } else if amount == held {
            entries.remove(at)
        } else {
            entries.update(at, LedgerEntry { item: entries[at].item, quantity: (held - amount) as i32 })
        }
    }
}

/// The stock that `entries` stand for.
pub open spec fn stock_of(entries: Seq<LedgerEntry>) -> Stock {
    Map::new(
        |name: Seq<char>| listed(entries, name),
        |name: Seq<char>| entries[entry_position(entries, name)].quantity as int,
    )
}

/// In a well-formed listing the entry at `i` is the one found for its name.
pub proof fn lemma_entry_found(entries: Seq<LedgerEntry>, i: int)
    requires
        entries_wf(entries),
        0 <= i < entries.len(),
    ensures
        listed(entries, entries[i].item.name@),
        entry_position(entries, entries[i].item.name@) == i,
        stock_of(entries).dom().contains(entries[i].item.name@),
        stock_of(entries)[entries[i].item.name@] == entries[i].quantity,
{
    let name = entries[i].item.name@;
    assert(entries[i].item.name@ == name);
    let k = entry_position(entries, name);
    assert(0 <= k < entries.len() && entries[k].item.name@ == name);
    if k < i {
        assert(entries[k].item.name@ != entries[i].item.name@);
    } else if i < k {
        assert(entries[i].item.name@ != entries[k].item.name@);
    }
}

/// The stock of a well-formed listing is valid.
pub proof fn lemma_stock_of_valid(entries: Seq<LedgerEntry>)
    requires
        entries_wf(entries),
    ensures
        stock_valid(stock_of(entries)),
{
    assert forall|name: Seq<char>| #[trigger]
        stock_of(entries).dom().contains(name) implies 0 < stock_of(entries)[name] <= i32::MAX by {
        let k = entry_position(entries, name);
        assert(0 <= k < entries.len() && entries[k].item.name@ == name);
        assert(entries[k].quantity > 0);
    }
}

/// The JSON object that `serde_json_any_key` writes for a sequence of
/// name and quantity pairs, or `None` where it refuses to write it.
pub uninterp spec fn json_map_text(pairs: Seq<(Seq<char>, int)>) -> Option<Seq<char>>;

/// The views of name and quantity pairs, in order.
pub open spec fn pairs_view(pairs: Seq<(String, i32)>) -> Seq<(Seq<char>, int)> {
    Seq::new(pairs.len(), |i: int| (pairs[i].0@, pairs[i].1 as int))
}

/// The name and the quantity of each entry, in order.
pub open spec fn listing_of(entries: Seq<LedgerEntry>) -> Seq<(Seq<char>, int)> {
    Seq::new(entries.len(), |i: int| (entries[i].item.name@, entries[i].quantity as int))
}

/// Writes the pairs as one JSON object, names as keys, with
/// `serde_json_any_key::MapIterToJson::to_json_map`, which takes the pairs
/// in the order given. The claim is that the outcome depends on the pairs
/// alone, which is why `json_map_text` can name it; nothing is claimed of
/// what the text is.
#[verifier::external_body]
fn json_map_of(pairs: &Vec<(String, i32)>) -> (text: Option<String>)
    ensures
        text_of(text) == json_map_text(pairs_view(pairs@)),
{
    serde_json_any_key::MapIterToJson::to_json_map(pairs.iter().map(|pair| (&pair.0, &pair.1))).ok()
}

impl View for Ledger {
    type V = Stock;

    /// The stock that the entries stand for.
    open spec fn view(&self) -> Stock {
        stock_of(self.entries())
    }
}

impl Ledger {
    /// The entries in the order in which their items first came in.
    pub closed spec fn entries(&self) -> Seq<LedgerEntry> {
        self.entries@
    }

    /// The ledger's invariant: one entry per name, every quantity positive.
    pub open spec fn wf(&self) -> bool {
        entries_wf(self.entries())
    }

    pub fn new() -> (ledger: Ledger)
        ensures
            ledger.wf(),
            ledger@ == Map::<Seq<char>, int>::empty(),
            ledger.entries().len() == 0,
    {
        let ledger = Ledger { entries: Vec::new() };
        assert(ledger@ =~= Map::<Seq<char>, int>::empty());
        ledger
    }

    fn locate(&self, name: &String) -> (found: Option<usize>)
        ensures
            match found {
                Some(i) => i < self.entries@.len() && self.entries@[i as int].item.name@ == name@,
                None => !listed(self.entries@, name@),
            },
    {
        let mut i: usize = 0;
        while i < self.entries.len()
            invariant
                i <= self.entries.len(),
                forall|j: int| 0 <= j < i ==> self.entries@[j].item.name@ != name@,
            decreases self.entries.len() - i,
        {
            if self.entries[i].item.name == *name {
                return Some(i);
            }
            i += 1;
        }
        None
    }

    /// How many of the item named `name` are held; zero where none is.
    pub fn quantity_of(&self, name: &String) -> (quantity: i32)
        requires
            self.wf(),
        ensures
            quantity == quantity_in(self@, name@),
            quantity >= 0,
            quantity > 0 <==> self@.dom().contains(name@),
    {
        proof {
            lemma_stock_of_valid(self.entries@);
        }
        match self.locate(name) {
            Some(i) => {
                proof {
                    lemma_entry_found(self.entries@, i as int);
                }
                self.entries[i].quantity
            },
            None => 0,
        }
    }

    /// Whether `add` may be called with this item and amount: the sum fits
    /// the machine integer, or the amount is one that `add` ignores.
    pub fn can_add(&self, item: &Item, amount: i32) -> (ok: bool)
        requires
            self.wf(),
        ensures
            ok == (amount <= 0 || quantity_in(self@, item.name@) + amount <= i32::MAX),
    {
        if amount <= 0 {
            return true;
        }
        let held = self.quantity_of(&item.name);
        held <= i32::MAX - amount
    }

    /// Adds `amount` of `item`, merging by name. An amount that is not
    /// positive is ignored. Where the name is already held, the entry keeps
    /// the item record it has.
    pub fn add(&mut self, item: Item, amount: i32)
        requires
            old(self).wf(),
            amount > 0 ==> quantity_in(old(self)@, item.name@) + amount <= i32::MAX,
        ensures
            final(self).wf(),
            final(self)@ == stock_after_add(old(self)@, item.name@, amount as int),
            final(self).entries() == entries_after_add(old(self).entries(), item, amount),
    {
        if amount <= 0 {
            return ;
        }
        let ghost before = self.entries@;
        let ghost name = item.name@;
        match self.locate(&item.name) {
            Some(i) => {
                proof {
                    lemma_entry_found(before, i as int);
                }
                let held = self.entries[i].quantity;
                let kept = self.entries[i].item.clone();
                self.entries.set(i, LedgerEntry { item: kept, quantity: held + amount });
                proof {
                    let after = self.entries@;
                    lemma_update_stock(before, i as int, after);
                    assert(after =~= entries_after_add(before, item, amount));
                }
            },
            None => {
                self.entries.push(LedgerEntry { item, quantity: amount });
                proof {
                    let after = self.entries@;
                    lemma_push_stock(before, after);
                }
            },
        }
    }

    /// Takes `amount` of `item` out, matching by name. Succeeds exactly when
    /// the item is held, the stock covers the amount and what is left fits
    /// the machine integer; a refused removal changes nothing.
    pub fn remove(&mut self, item: &Item, amount: i32) -> (done: bool)
        requires
            old(self).wf(),
        ensures
            final(self).wf(),
            done == can_remove(old(self)@, item.name@, amount as int),
            final(self)@ == stock_after_remove(old(self)@, item.name@, amount as int),
            final(self).entries() == entries_after_remove(old(self).entries(), item.name@, amount),
    {
        let ghost before = self.entries@;
        match self.locate(&item.name) {
            None => false,
            Some(i) => {
                proof {
                    lemma_entry_found(before, i as int);
                }
                let held = self.entries[i].quantity;
                if amount > held {
                    return false;
                }
                if amount < 0 && held > i32::MAX + amount {
                    return false;
                }
                if amount == held {
                    self.entries.remove(i);
                    proof {
                        lemma_remove_stock(before, i as int, self.entries@);
                    }
                } else {
                    let kept = self.entries[i].item.clone();
                    self.entries.set(i, LedgerEntry { item: kept, quantity: held - amount });
                    proof {
                        lemma_update_stock(before, i as int, self.entries@);
                        assert(self.entries@ =~= entries_after_remove(before, item.name@, amount));
                    }
                }
                true
            },
        }
    }

    /// The name and the quantity of each entry, in the order of the entries.
    pub open spec fn listing(&self) -> Seq<(Seq<char>, int)> {
        listing_of(self.entries())
    }

    /// The holdings as the JSON object that goes out with a request: item
    /// names as keys, quantities as values, in the order of the entries.
    /// `None` where the writer refuses.
    pub fn snapshot_to_wire(&self) -> (text: Option<String>)
        ensures
            text_of(text) == json_map_text(self.listing()),
    {
        let mut pairs: Vec<(String, i32)> = Vec::new();
        let mut i: usize = 0;
        while i < self.entries.len()
            invariant
                i <= self.entries.len(),
                pairs@.len() == i,
                forall|j: int|
                    0 <= j < i ==> (#[trigger] pairs@[j]).0@ == self.entries@[j].item.name@
                        && pairs@[j].1 == self.entries@[j].quantity,
            decreases self.entries.len() - i,
        {
            pairs.push((self.entries[i].item.name.clone(), self.entries[i].quantity));
            i += 1;
        }
        assert(pairs_view(pairs@) =~= self.listing());
        json_map_of(&pairs)
    }

    /// The entries, for reading.
    pub fn get_all(&self) -> (entries: &Vec<LedgerEntry>)
        ensures
            entries@ == self.entries(),
    {
        &self.entries
    }
}

/// Replacing the quantity of entry `i` changes the stock at that name only.
proof fn lemma_update_stock(before: Seq<LedgerEntry>, i: int, after: Seq<LedgerEntry>)
    requires
        entries_wf(before),
        0 <= i < before.len(),
        after.len() == before.len(),
        after[i].item.name@ == before[i].item.name@,
        after[i].quantity > 0,
        forall|j: int| 0 <= j < before.len() && j != i ==> after[j] == before[j],
    ensures
        entries_wf(after),
        stock_of(after) == stock_of(before).insert(before[i].item.name@, after[i].quantity as int),
{
    let name = before[i].item.name@;
    assert forall|a: int, b: int| 0 <= a < b < after.len() implies (#[trigger] after[a]).item.name@
        != (#[trigger] after[b]).item.name@ by {
        assert(before[a].item.name@ != before[b].item.name@);
        assert(after[a].item.name@ == before[a].item.name@);
        assert(after[b].item.name@ == before[b].item.name@);
    }
    assert forall|a: int| 0 <= a < after.len() implies (#[trigger] after[a]).quantity > 0 by {
        if a != i {
            assert(before[a].quantity > 0);
        }
    }
    let target = stock_of(before).insert(name, after[i].quantity as int);
    assert forall|n: Seq<char>| stock_of(after).dom().contains(n) <==> target.dom().contains(
        n,
    ) by {
        if listed(after, n) {
            let k = entry_position(after, n);
            assert(before[k].item.name@ == n);
        }
        if listed(before, n) {
            let k = entry_position(before, n);
            assert(after[k].item.name@ == n);
        }
        if n == name {
            assert(after[i].item.name@ == n);
        }
    }
    assert forall|n: Seq<char>| stock_of(after).dom().contains(n) implies stock_of(after)[n]
        == target[n] by {
        let k = entry_position(after, n);
        lemma_entry_found(after, k);
        if k != i {
            lemma_entry_found(before, k);
        }
    }
    assert(stock_of(after) =~= target);
}

/// Appending an entry for a name not yet listed adds that name to the stock.
proof fn lemma_push_stock(before: Seq<LedgerEntry>, after: Seq<LedgerEntry>)
    requires
        entries_wf(before),
        after.len() == before.len() + 1,
        forall|j: int| 0 <= j < before.len() ==> after[j] == before[j],
        !listed(before, after.last().item.name@),
        after.last().quantity > 0,
    ensures
        entries_wf(after),
        stock_of(after) == stock_of(before).insert(
            after.last().item.name@,
            after.last().quantity as int,
        ),
{
    let last = before.len() as int;
    let name = after[last].item.name@;
    assert forall|a: int, b: int| 0 <= a < b < after.len() implies (#[trigger] after[a]).item.name@
        != (#[trigger] after[b]).item.name@ by {
        if b < last {
            assert(before[a].item.name@ != before[b].item.name@);
        } else {
            assert(before[a].item.name@ == after[a].item.name@);
        }
    }
    assert forall|a: int| 0 <= a < after.len() implies (#[trigger] after[a]).quantity > 0 by {
        if a < last {
            assert(before[a].quantity > 0);
        }
    }
    let target = stock_of(before).insert(name, after[last].quantity as int);
    assert forall|n: Seq<char>| stock_of(after).dom().contains(n) <==> target.dom().contains(
        n,
    ) by {
        if listed(after, n) {
            let k = entry_position(after, n);
            if k < last {
                assert(before[k].item.name@ == n);
            }
        }
        if listed(before, n) {
            let k = entry_position(before, n);
            assert(after[k].item.name@ == n);
        }
        if n == name {
            assert(after[last].item.name@ == n);
        }
    }
    assert forall|n: Seq<char>| stock_of(after).dom().contains(n) implies stock_of(after)[n]
        == target[n] by {
        let k = entry_position(after, n);
        lemma_entry_found(after, k);
        if k < last {
            lemma_entry_found(before, k);
        }
    }
    assert(stock_of(after) =~= target);
}

/// Deleting entry `i` deletes its name from the stock.
proof fn lemma_remove_stock(before: Seq<LedgerEntry>, i: int, after: Seq<LedgerEntry>)
    requires
        entries_wf(before),
        0 <= i < before.len(),
        after == before.remove(i),
    ensures
        entries_wf(after),
        stock_of(after) == stock_of(before).remove(before[i].item.name@),
{
    let name = before[i].item.name@;
    let shift = |a: int| if a < i { a } else { a + 1 };
    assert forall|a: int| 0 <= a < after.len() implies after[a] == before[shift(a)] by {}
    assert forall|a: int, b: int| 0 <= a < b < after.len() implies (#[trigger] after[a]).item.name@
        != (#[trigger] after[b]).item.name@ by {
        assert(before[shift(a)].item.name@ != before[shift(b)].item.name@);
    }
    assert forall|a: int| 0 <= a < after.len() implies (#[trigger] after[a]).quantity > 0 by {
        assert(before[shift(a)].quantity > 0);
    }
    let target = stock_of(before).remove(name);
    assert forall|n: Seq<char>| stock_of(after).dom().contains(n) <==> target.dom().contains(
        n,
    ) by {
        if listed(after, n) {
            let k = entry_position(after, n);
            assert(before[shift(k)].item.name@ == n);
            lemma_entry_found(before, shift(k));
            lemma_entry_found(before, i);
        }
        if listed(before, n) && n != name {
            let k = entry_position(before, n);
            if k < i {
                assert(after[k].item.name@ == n);
            } else {
                assert(after[k - 1].item.name@ == n);
            }
        }
    }
    assert forall|n: Seq<char>| stock_of(after).dom().contains(n) implies stock_of(after)[n]
        == target[n] by {
        let k = entry_position(after, n);
        lemma_entry_found(after, k);
        lemma_entry_found(before, shift(k));
    }
    assert(stock_of(after) =~= target);
}

} // verus!
