//! A shopping list: named items with an amount each, in the order in which
//! they were first added. A name occurs once at most.

use crate::input::{bound, bounded, trimmed};
use crate::text::{clear_screen, decimal, decimal_text};
use vstd::prelude::*;
use vstd::string::*;

verus! {

/// Shown when a line holds no amount.
pub const SHOPPING_LIST_AMOUNT_ERROR_MESSAGE: &'static str =
    "Enter a valid amount between 1 and 100";

/// A shopping list as a value: names with their amounts, in order.
pub type Entries = Seq<(Seq<char>, u8)>;

/// Some entry bears the name.
pub open spec fn holds(entries: Entries, name: Seq<char>) -> bool {
    exists|i: int| 0 <= i < entries.len() && (#[trigger] entries[i]).0 == name
}

/// Entry `i` is the first that bears the name.
pub open spec fn first_at(entries: Entries, name: Seq<char>, i: int) -> bool {
    &&& 0 <= i < entries.len()
    &&& entries[i].0 == name
    &&& forall|j: int| 0 <= j < i ==> (#[trigger] entries[j]).0 != name
}

/// The index of the first entry that bears the name, where one does.
pub open spec fn position(entries: Entries, name: Seq<char>) -> int {
    choose|i: int| first_at(entries, name, i)
}

/// No two entries bear the same name.
pub open spec fn unique_names(entries: Entries) -> bool {
    forall|i: int, j: int|
        0 <= i < j < entries.len() ==> (#[trigger] entries[i]).0 != (#[trigger] entries[j]).0
}

/// Every amount lies between 1 and 100.
pub open spec fn amounts_in_range(entries: Entries) -> bool {
    forall|i: int| 0 <= i < entries.len() ==> 1 <= (#[trigger] entries[i]).1 <= 100
}

/// The list after an item is added: the amount of the entry that bears the
/// name is overwritten, and where there is none, a new entry closes the
/// list.
pub open spec fn upserted(entries: Entries, name: Seq<char>, amount: u8) -> Entries {
    if holds(entries, name) {
        entries.update(position(entries, name), (name, amount))
    } else {
        entries.push((name, amount))
    }
}

/// The list after an item is removed by name: the first entry that bears
/// the name leaves, and where there is none, nothing changes.
pub open spec fn removed(entries: Entries, name: Seq<char>) -> Entries {
    if holds(entries, name) {
        entries.remove(position(entries, name))
    } else {
        entries
    }
}

/// The line that shows one entry.
pub open spec fn entry_text(entry: (Seq<char>, u8)) -> Seq<char> {
    "Item: "@ + entry.0 + "\tamount: "@ + decimal_text(entry.1 as nat)
}

/// The lines that show the first `n` entries, a line feed between any two.
pub open spec fn listing_text(entries: Entries, n: int) -> Seq<char>
    decreases n,
{
    if n <= 0 {
        Seq::empty()
    } else if n == 1 {
        entry_text(entries[0])
    } else {
        listing_text(entries, n - 1) + "\n"@ + entry_text(entries[n - 1])
    }
}

/// The screen that shows a list: the terminal wiped, the entries one to a
/// line (one empty line for an empty list), and the call to return.
pub open spec fn display_text(entries: Entries) -> Seq<char> {
    "\x1B[2J\x1B[H"@ + listing_text(entries, entries.len() as int) + "\n"@
        + "Press ENTER to return\n"@
}

/// What asks for the amount of an item: other words for an item that is
/// on the list already.
pub open spec fn amount_prompt_text(entries: Entries, name: Seq<char>) -> Seq<char> {
    if holds(entries, name) {
        "Item is already in the shopping list.\n"@ + "Please enter the new amount: \n"@
    } else {
        "Please enter the amount: \n"@
    }
}

/// What is said after an attempt to remove an item.
pub open spec fn removal_text(found: bool) -> Seq<char> {
    if found {
        "Item removed\n"@ + "Press ENTER to return\n"@
    } else {
        "No such item on the list\n"@ + "Press ENTER to return\n"@
    }
}

/// If any entry bears the name, a first one does, and `position` is it.
pub proof fn lemma_position(entries: Entries, name: Seq<char>)
    requires
        holds(entries, name),
    ensures
        first_at(entries, name, position(entries, name)),
{
    let i = choose|i: int| 0 <= i < entries.len() && (#[trigger] entries[i]).0 == name;
    lemma_first_exists(entries, name, i);
}

/// An entry that bears the name is preceded by at most finitely many
/// others: one of them is the first.
proof fn lemma_first_exists(entries: Entries, name: Seq<char>, i: int)
    requires
        0 <= i < entries.len(),
        entries[i].0 == name,
    ensures
        exists|k: int| first_at(entries, name, k),
    decreases i,
{
    if exists|j: int| 0 <= j < i && (#[trigger] entries[j]).0 == name {
        let j = choose|j: int| 0 <= j < i && (#[trigger] entries[j]).0 == name;
        lemma_first_exists(entries, name, j);
    } else {
        assert(first_at(entries, name, i));
    }
}

/// An item of the list.
pub struct Item {
    name: String,
    amount: u8,
}

impl Item {
    /// The name of the item.
    pub fn name(&self) -> (s: &String)
        ensures
            s@ == self@.0,
    {
        &self.name
    }

    /// How much of the item is wanted.
    pub fn amount(&self) -> (n: u8)
        ensures
            n == self@.1,
    {
        self.amount
    }
}

impl View for Item {
    type V = (Seq<char>, u8);

    closed spec fn view(&self) -> (Seq<char>, u8) {
        (self.name@, self.amount)
    }
}

/// The shopping list.
pub struct ShoppingList {
    items: Vec<Item>,
}

impl View for ShoppingList {
    type V = Entries;

    closed spec fn view(&self) -> Entries {
        Seq::new(self.items@.len(), |i: int| self.items@[i]@)
    }
}

/// The name that a typed line gives: the line without the white space at
/// its ends.
pub fn item_name(line: &str) -> (name: String)
    ensures
        name@ == trimmed(line@),
{
    String::from_str(line.trim())
}

/// Reads an amount, a number from 1 to 100, from a typed line. `None` asks
/// for another line with `SHOPPING_LIST_AMOUNT_ERROR_MESSAGE`.
pub fn read_amount(line: &str) -> (r: Option<u8>)
    ensures
        r == bounded(trimmed(line@), 1, 101),
        r matches Some(n) ==> 1 <= n <= 100,
{
    bound(line, 1, 101)
}

/// What asks for the name of the item to add.
pub fn add_prompt() -> (s: String)
    ensures
        s@ == "\x1B[2J\x1B[H"@ + "Enter the name of the item to add:\n"@,
{
    let mut s = String::from_str(clear_screen());
    s.append("Enter the name of the item to add:\n");
    s
}

/// What asks for the name of the item to remove.
pub fn remove_prompt() -> (s: String)
    ensures
        s@ == "\x1B[2J\x1B[H"@ + "Enter the name of the item to remove:\n"@,
{
    let mut s = String::from_str(clear_screen());
    s.append("Enter the name of the item to remove:\n");
    s
}

/// What is said after an attempt to remove an item.
pub fn removal_notice(found: bool) -> (s: String)
    ensures
        s@ == removal_text(found),
{
    let mut s = String::new();
    if found {
        s.append("Item removed\n");
    } else {
        s.append("No such item on the list\n");
    }
    s.append("Press ENTER to return\n");
    s
}

impl ShoppingList {
    /// What holds of every list: names are unique and amounts lie between
    /// 1 and 100.
    pub open spec fn wf(&self) -> bool {
        unique_names(self@) && amounts_in_range(self@)
    }

    /// An empty list.
    pub fn new() -> (list: Self)
        ensures
            list.wf(),
            list@ == Seq::<(Seq<char>, u8)>::empty(),
    {
        let list = ShoppingList { items: Vec::new() };
        list
    }

    /// The number of items.
    pub fn len(&self) -> (n: usize)
        ensures
            n == self@.len(),
    {
        self.items.len()
    }

    /// Item `i` of the list.
    pub fn get(&self, i: usize) -> (item: Option<&Item>)
        ensures
            item is Some <==> i < self@.len(),
            item matches Some(it) ==> it@ == self@[i as int],
    {
        if i < self.items.len() {
            Some(&self.items[i])
        } else {
            None
        }
    }

    /// Where the first item of that name stands, if there is one.
    pub fn find(&self, name: &String) -> (r: Option<usize>)
        ensures
            match r {
                Some(i) => first_at(self@, name@, i as int),
                None => !holds(self@, name@),
            },
    {
        let mut i: usize = 0;
        while i < self.items.len()
            invariant
                i <= self.items@.len(),
                forall|j: int| 0 <= j < i ==> (#[trigger] self@[j]).0 != name@,
            decreases self.items@.len() - i,
        {
            if self.items[i].name == *name {
                return Some(i);
            }
            i += 1;
        }
        None
    }

    /// What asks for the amount of the named item.
    pub fn amount_prompt(&self, name: &String) -> (s: String)
        ensures
            s@ == amount_prompt_text(self@, name@),
    {
        let mut s = String::new();
        if self.find(name).is_some() {
            s.append("Item is already in the shopping list.\n");
            s.append("Please enter the new amount: \n");
        } else {
            s.append("Please enter the amount: \n");
        }
        s
    }

    /// Adds an item: the amount of the item of that name is overwritten,
    /// and where there is none, a new item closes the list.
    pub fn add_to_shopping_list(&mut self, name: String, amount: u8)
        requires
            old(self).wf(),
            1 <= amount <= 100,
        ensures
            final(self).wf(),
            final(self)@ == upserted(old(self)@, name@, amount),
            holds(old(self)@, name@) ==> first_at(old(self)@, name@, position(old(self)@, name@)),
    {
        let existing = self.find(&name);
        proof {
            if holds(self@, name@) {
                lemma_position(self@, name@);
            }
        }
        if let Some(i) = existing {
            self.items[i].amount = amount;
            assert(self@ =~= upserted(old(self)@, name@, amount));
        } else {
            self.items.push(Item { name, amount });
            assert(self@ =~= upserted(old(self)@, name@, amount));
        }
    }

    /// Removes the first item of that name and says whether there was one.
    pub fn remove_from_shopping_list(&mut self, name: &String) -> (found: bool)
        requires
            old(self).wf(),
        ensures
            final(self).wf(),
            found == holds(old(self)@, name@),
            final(self)@ == removed(old(self)@, name@),
            found ==> first_at(old(self)@, name@, position(old(self)@, name@)),
    {
        proof {
            if holds(self@, name@) {
                lemma_position(self@, name@);
            }
        }
        if let Some(i) = self.find(name) {
            self.items.remove(i);
            assert(self@ =~= removed(old(self)@, name@));
            true
        } else {
            false
        }
    }

    /// The screen that shows the list.
    pub fn display_shopping_list(&self) -> (s: String)
        ensures
            s@ == display_text(self@),
    {
        let mut s = String::from_str(clear_screen());
        let ghost start = s@;
        let mut i: usize = 0;
        while i < self.items.len()
            invariant
                i <= self.items@.len(),
                s@ == start + listing_text(self@, i as int),
            decreases self.items@.len() - i,
        {
            if i > 0 {
                s.append("\n");
            }
            s.append("Item: ");
            s.append(self.items[i].name.as_str());
            s.append("\tamount: ");
            s.append(decimal(self.items[i].amount).as_str());
            i += 1;
        }
        s.append("\n");
        s.append("Press ENTER to return\n");
        s
    }
}

/// Adding an item that the list does not hold and removing it again gives
/// the list back.
pub proof fn law_add_then_remove(entries: Entries, name: Seq<char>, amount: u8)
    requires
        !holds(entries, name),
    ensures
        removed(upserted(entries, name, amount), name) == entries,
{
    let added = entries.push((name, amount));
    assert(added[entries.len() as int].0 == name);
    lemma_position(added, name);
    let at = position(added, name);
    if at < entries.len() {
        assert(entries[at] == added[at]);
    }
    assert(added.remove(at) =~= entries);
}

/// Adding an item that the list holds keeps the length, every name and
/// every other amount; only the amount of the first entry of that name
/// becomes the new one.
pub proof fn law_add_existing_sets_amount_only(entries: Entries, name: Seq<char>, amount: u8)
    requires
        holds(entries, name),
    ensures
        ({
            let after = upserted(entries, name, amount);
            let at = position(entries, name);
            &&& first_at(entries, name, at)
            &&& after.len() == entries.len()
            &&& after[at] == (name, amount)
            &&& forall|i: int| 0 <= i < entries.len() ==> (#[trigger] after[i]).0 == entries[i].0
            &&& forall|i: int| 0 <= i < entries.len() && i != at ==> #[trigger] after[i] == entries[i]
        }),
{
    lemma_position(entries, name);
}

/// Adding and removing keep names unique and amounts in range.
pub proof fn law_list_stays_well_formed(entries: Entries, name: Seq<char>, amount: u8)
    requires
        unique_names(entries),
        amounts_in_range(entries),
        1 <= amount <= 100,
    ensures
        unique_names(upserted(entries, name, amount)),
        amounts_in_range(upserted(entries, name, amount)),
        unique_names(removed(entries, name)),
        amounts_in_range(removed(entries, name)),
        !holds(removed(entries, name), name),
{
    if holds(entries, name) {
        lemma_position(entries, name);
        let at = position(entries, name);
        let gone = entries.remove(at);
        assert forall|i: int| 0 <= i < gone.len() implies (#[trigger] gone[i]).0 != name by {
            if i < at {
                assert(gone[i] == entries[i]);
            } else {
                assert(gone[i] == entries[i + 1]);
            }
        }
        assert forall|i: int, j: int| 0 <= i < j < gone.len() implies (#[trigger] gone[i]).0 != (
        #[trigger] gone[j]).0 by {
            let a = if i < at { i } else { i + 1 };
            let b = if j < at { j } else { j + 1 };
            assert(gone[i] == entries[a] && gone[j] == entries[b]);
        }
        assert forall|i: int| 0 <= i < gone.len() implies 1 <= (#[trigger] gone[i]).1 <= 100 by {
            let a = if i < at { i } else { i + 1 };
            assert(gone[i] == entries[a]);
        }
        let set = entries.update(at, (name, amount));
        assert forall|i: int, j: int| 0 <= i < j < set.len() implies (#[trigger] set[i]).0 != (
        #[trigger] set[j]).0 by {
            assert(set[i].0 == entries[i].0 && set[j].0 == entries[j].0);
        }
    } else {
        let more = entries.push((name, amount));
        assert forall|i: int, j: int| 0 <= i < j < more.len() implies (#[trigger] more[i]).0 != (
        #[trigger] more[j]).0 by {
            if j < entries.len() {
                assert(more[i] == entries[i] && more[j] == entries[j]);
            } else {
                assert(more[i] == entries[i]);
            }
        }
    }
}

} // verus!
