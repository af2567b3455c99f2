//! Configuration documents before they are typed.
//!
//! Layers are merged, and profiles inherit their defaults, while everything is still a tree
//! of keys. That is what keeps the typed configuration free of `Option` everywhere: by the
//! time a profile is built, `[defaults.capture]` and `[profiles.x.capture]` have already
//! become one complete table.

use vstd::prelude::*;

use crate::names::Named;
use crate::text::{same_text, text_before};

verus! {

/// A TOML value.
#[derive(Debug, PartialEq, Eq)]
pub enum Item {
    Text(String),
    Integer(i64),
    /// A floating-point number, by its bit pattern.
    Float(u64),
    Boolean(bool),
    /// A date or a time, as it is written.
    Datetime(String),
    Array(Vec<Item>),
    Table(Table),
}

/// A TOML table: keys in order, each with its value.
#[derive(Debug, PartialEq, Eq)]
pub struct Table {
    pub entries: Named<Item>,
}

/// What a value says.
pub enum Tree {
    Text(Seq<char>),
    Integer(int),
    Float(u64),
    Boolean(bool),
    Datetime(Seq<char>),
    Array(Seq<Tree>),
    Table(Seq<(Seq<char>, Tree)>),
}

/// What a value says.
pub open spec fn tree_of(value: Item) -> Tree
    decreases value,
{
    match value {
        Item::Text(text) => Tree::Text(text@),
        Item::Integer(n) => Tree::Integer(n as int),
        Item::Float(bits) => Tree::Float(bits),
        Item::Boolean(b) => Tree::Boolean(b),
        Item::Datetime(text) => Tree::Datetime(text@),
        Item::Array(items) => Tree::Array(
            Seq::new(
                items@.len(),
                |i: int|
                    if 0 <= i < items@.len() {
                        tree_of(items@[i])
                    } else {
                        arbitrary()
                    },
            ),
        ),
        Item::Table(table) => Tree::Table(entries_of(table)),
    }
}

/// What a table says: its keys in order, and what is under each.
pub open spec fn entries_of(table: Table) -> Seq<(Seq<char>, Tree)>
    decreases table,
{
    Seq::new(
        table.entries@.len(),
        |i: int|
            if 0 <= i < table.entries@.len() {
                proof {
                    crate::names::lemma_entry_decreases(table.entries, i);
                }
                (table.entries@[i].0@, tree_of(table.entries@[i].1))
            } else {
                arbitrary()
            },
    )
}

/// What a list of entries says.
pub open spec fn branches(entries: Seq<(String, Item)>) -> Seq<(Seq<char>, Tree)> {
    entries.map_values(|e: (String, Item)| (e.0@, tree_of(e.1)))
}

/// What is under `key`, if anything is.
pub open spec fn find(entries: Seq<(Seq<char>, Tree)>, key: Seq<char>) -> Option<Tree>
    decreases entries.len(),
{
    if entries.len() == 0 {
        None
    } else if entries[0].0 == key {
        Some(entries[0].1)
    } else {
        find(entries.drop_first(), key)
    }
}

/// Keys in strictly ascending order.
pub open spec fn sorted(entries: Seq<(Seq<char>, Tree)>) -> bool {
    forall|i: int, j: int|
        0 <= i < j < entries.len() ==> crate::text::before(
            #[trigger] entries[i].0,
            #[trigger] entries[j].0,
        )
}

/// `overlay` merged over `base`, key by key, with the keys in order.
pub open spec fn merged(
    base: Seq<(Seq<char>, Tree)>,
    overlay: Seq<(Seq<char>, Tree)>,
) -> Seq<(Seq<char>, Tree)>
    decreases overlay, base.len(),
{
    if overlay.len() == 0 {
        base
    } else if base.len() == 0 {
        overlay
    } else if base[0].0 == overlay[0].0 {
        proof {
            assert(decreases_to!(overlay => overlay.subrange(1, overlay.len() as int)));
        }
        seq![(overlay[0].0, combined(base[0].1, overlay[0].1))] + merged(
            base.drop_first(),
            overlay.drop_first(),
        )
    } else if crate::text::before(base[0].0, overlay[0].0) {
        seq![base[0]] + merged(base.drop_first(), overlay)
    } else {
        proof {
            assert(decreases_to!(overlay => overlay.subrange(1, overlay.len() as int)));
        }
        seq![overlay[0]] + merged(base, overlay.drop_first())
    }
}

/// What a key becomes when both sides have it: two tables merge, and anything else gives way.
///
/// Arrays replace rather than concatenate. That is the behaviour a user expects from
/// `sinks = ["a"]` in a drop-in file: it should mean "these sinks", not "these as well as
/// whatever was configured elsewhere", which would be impossible to undo.
pub open spec fn combined(base: Tree, overlay: Tree) -> Tree
    decreases overlay, 0nat,
{
    match (base, overlay) {
        (Tree::Table(b), Tree::Table(o)) => Tree::Table(merged(b, o)),
        _ => overlay,
    }
}

pub(crate) proof fn lemma_branches(table: Table)
    ensures
        entries_of(table) == branches(table.entries@),
{
    assert(entries_of(table) =~= branches(table.entries@));
}

/// Merge `overlay` into `base`, recursing into tables.
pub fn merge_into(base: &mut Table, overlay: Table)
    ensures
        entries_of(*final(base)) == merged(entries_of(*old(base)), entries_of(overlay)),
{
    let mut taken = Table { entries: Named::new() };
    std::mem::swap(base, &mut taken);
    *base = merge(taken, overlay);
}

fn merge(base: Table, overlay: Table) -> (result: Table)
    ensures
        entries_of(result) == merged(entries_of(base), entries_of(overlay)),
    decreases overlay,
{
    proof {
        lemma_branches(base);
        lemma_branches(overlay);
    }
    let ghost upper = overlay.entries;
    let ghost wanted = merged(branches(base.entries@), branches(overlay.entries@));
    let mut b: Vec<(String, Item)> = base.entries.into_entries();
    let mut o: Vec<(String, Item)> = overlay.entries.into_entries();
    let mut out: Vec<(String, Item)> = Vec::new();
    let ghost mut taken: int = 0;
    assert(branches(out@) + merged(branches(b@), branches(o@)) =~= wanted);
    assert(o@ =~= upper@.skip(0));
    while b.len() > 0 && o.len() > 0
        invariant
            wanted == branches(out@) + merged(branches(b@), branches(o@)),
            crate::names::ascending(b@),
            crate::names::ascending(o@),
            crate::names::ascending(out@),
            precedes(out@, b@),
            precedes(out@, o@),
            upper == overlay.entries,
            0 <= taken <= upper@.len(),
            o@ == upper@.skip(taken),
        decreases b.len() + o.len(),
    {
        let ghost (b0, o0, out0) = (b@, o@, out@);
        proof {
            assert(branches(b0).drop_first() =~= branches(b0.drop_first()));
            assert(branches(o0).drop_first() =~= branches(o0.drop_first()));
            assert(b0.remove(0) =~= b0.drop_first());
            assert(o0.remove(0) =~= o0.drop_first());
            lemma_tail_ascends(b0);
            lemma_tail_ascends(o0);
            crate::text::lemma_before_irreflexive(b0[0].0@);
        }
        if same_text(b[0].0.as_str(), o[0].0.as_str()) {
            let (_, under) = b.remove(0);
            let (key, over) = o.remove(0);
            let ghost shadowed = over;
            let ghost replaced = under;
            let value = match (under, over) {
                (Item::Table(lower), Item::Table(higher)) => {
                    proof {
                        crate::names::lemma_entry_decreases(upper, taken);
                        assert(decreases_to!(overlay => overlay.entries));
                        assert(upper@[taken].1 == shadowed);
                        assert(decreases_to!(shadowed => shadowed->Table_0));
                    }
                    Item::Table(merge(lower, higher))
                },
                (_, higher) => higher,
            };
            let ghost entry = (key, value);
            out.push((key, value));
            proof {
                assert(tree_of(value) == combined(tree_of(replaced), tree_of(shadowed)));
                assert(branches(b0)[0] == (b0[0].0@, tree_of(replaced)));
                assert(branches(o0)[0] == (o0[0].0@, tree_of(shadowed)));
                taken = taken + 1;
                assert(o@ =~= upper@.skip(taken));
                lemma_front(b0, b@, o0, o@);
                lemma_pushed(out0, entry, b0, o0, b@, o@);
                assert(branches(out@) =~= branches(out0).push((entry.0@, tree_of(entry.1))));
                assert(branches(out0) + (seq![(entry.0@, tree_of(entry.1))] + merged(
                    branches(b@),
                    branches(o@),
                )) =~= branches(out@) + merged(branches(b@), branches(o@)));
            }
        } else if text_before(b[0].0.as_str(), o[0].0.as_str()) {
            let entry = b.remove(0);
            out.push(entry);
            proof {
                lemma_leads(entry, o0);
                lemma_front_one(b0, b@);
                lemma_pushed(out0, entry, b0, o0, b@, o@);
                assert(branches(out@) =~= branches(out0).push((entry.0@, tree_of(entry.1))));
                assert(branches(out0) + (seq![(entry.0@, tree_of(entry.1))] + merged(
                    branches(b@),
                    branches(o@),
                )) =~= branches(out@) + merged(branches(b@), branches(o@)));
            }
        } else {
            let entry = o.remove(0);
            out.push(entry);
            proof {
                taken = taken + 1;
                assert(o@ =~= upper@.skip(taken));
                crate::text::lemma_before_total(b0[0].0@, o0[0].0@);
                lemma_leads(entry, b0);
                lemma_front_one(o0, o@);
                lemma_pushed(out0, entry, b0, o0, b@, o@);
                assert(branches(out@) =~= branches(out0).push((entry.0@, tree_of(entry.1))));
                assert(branches(out0) + (seq![(entry.0@, tree_of(entry.1))] + merged(
                    branches(b@),
                    branches(o@),
                )) =~= branches(out@) + merged(branches(b@), branches(o@)));
            }
        }
    }
    let ghost (b1, o1, out1) = (b@, o@, out@);
    out.append(&mut b);
    out.append(&mut o);
    proof {
        assert(out@ =~= out1 + (b1 + o1));
        assert(branches(out@) =~= branches(out1) + (branches(b1) + branches(o1)));
        if o1.len() == 0 {
            assert(branches(b1) + branches(o1) =~= branches(b1));
        } else {
            assert(branches(b1) + branches(o1) =~= branches(o1));
        }
        assert forall|i: int, j: int| 0 <= i < j < out@.len() implies crate::text::before(
            #[trigger] out@[i].0@,
            #[trigger] out@[j].0@,
        ) by {
            let n = out1.len();
            let rest = b1 + o1;
            if i >= n {
                assert(out@[i] == rest[i - n]);
            } else {
                assert(out@[i] == out1[i]);
            }
            if j >= n {
                assert(out@[j] == rest[j - n]);
            } else {
                assert(out@[j] == out1[j]);
            }
        }
    }
    let result = Table { entries: Named::from_sorted(out) };
    proof {
        lemma_branches(result);
    }
    result
}

/// Every key of `front` comes before every key of `back`.
spec fn precedes(front: Seq<(String, Item)>, back: Seq<(String, Item)>) -> bool {
    forall|i: int, j: int|
        0 <= i < front.len() && 0 <= j < back.len() ==> crate::text::before(
            #[trigger] front[i].0@,
            #[trigger] back[j].0@,
        )
}

/// The key of `entry` comes before every key of `back`.
spec fn leads(entry: (String, Item), back: Seq<(String, Item)>) -> bool {
    forall|j: int|
        0 <= j < back.len() ==> crate::text::before(entry.0@, #[trigger] back[j].0@)
}

proof fn lemma_tail_ascends(entries: Seq<(String, Item)>)
    requires
        crate::names::ascending(entries),
        entries.len() > 0,
    ensures
        crate::names::ascending(entries.drop_first()),
{
    let tail = entries.drop_first();
    assert forall|i: int, j: int| 0 <= i < j < tail.len() implies crate::text::before(
        #[trigger] tail[i].0@,
        #[trigger] tail[j].0@,
    ) by {
        assert(tail[i] == entries[i + 1]);
        assert(tail[j] == entries[j + 1]);
    }
}

proof fn lemma_front_one(all: Seq<(String, Item)>, tail: Seq<(String, Item)>)
    requires
        crate::names::ascending(all),
        all.len() > 0,
        tail == all.drop_first(),
    ensures
        leads(all[0], tail),
{
    assert forall|j: int| 0 <= j < tail.len() implies crate::text::before(
        all[0].0@,
        #[trigger] tail[j].0@,
    ) by {
        assert(tail[j] == all[j + 1]);
    }
}

proof fn lemma_front(
    b0: Seq<(String, Item)>,
    b: Seq<(String, Item)>,
    o0: Seq<(String, Item)>,
    o: Seq<(String, Item)>,
)
    requires
        crate::names::ascending(b0),
        crate::names::ascending(o0),
        b0.len() > 0,
        o0.len() > 0,
        b == b0.drop_first(),
        o == o0.drop_first(),
        b0[0].0@ == o0[0].0@,
    ensures
        forall|j: int| 0 <= j < b.len() ==> crate::text::before(o0[0].0@, #[trigger] b[j].0@),
        forall|j: int| 0 <= j < o.len() ==> crate::text::before(o0[0].0@, #[trigger] o[j].0@),
{
    lemma_front_one(b0, b);
    lemma_front_one(o0, o);
}

proof fn lemma_leads(entry: (String, Item), back: Seq<(String, Item)>)
    requires
        back.len() > 0,
        crate::names::ascending(back),
        crate::text::before(entry.0@, back[0].0@),
    ensures
        leads(entry, back),
{
    assert forall|j: int| 0 <= j < back.len() implies crate::text::before(
        entry.0@,
        #[trigger] back[j].0@,
    ) by {
        if j > 0 {
            crate::text::lemma_before_transitive(entry.0@, back[0].0@, back[j].0@);
        }
    }
}

/// Moving the smallest entry to the end of what has been put out keeps everything in order.
proof fn lemma_pushed(
    out: Seq<(String, Item)>,
    entry: (String, Item),
    b0: Seq<(String, Item)>,
    o0: Seq<(String, Item)>,
    b: Seq<(String, Item)>,
    o: Seq<(String, Item)>,
)
    requires
        crate::names::ascending(out),
        precedes(out, b0),
        precedes(out, o0),
        b0.len() > 0,
        o0.len() > 0,
        b == b0 || b == b0.drop_first(),
        o == o0 || o == o0.drop_first(),
        entry.0@ == b0[0].0@ || entry.0@ == o0[0].0@,
        leads(entry, b),
        leads(entry, o),
    ensures
        crate::names::ascending(out.push(entry)),
        precedes(out.push(entry), b),
        precedes(out.push(entry), o),
{
    let grown = out.push(entry);
    assert forall|i: int, j: int| 0 <= i < j < grown.len() implies crate::text::before(
        #[trigger] grown[i].0@,
        #[trigger] grown[j].0@,
    ) by {
        if j == out.len() {
            assert(crate::text::before(out[i].0@, b0[0].0@));
            assert(crate::text::before(out[i].0@, o0[0].0@));
        }
    }
    assert forall|i: int, j: int|
        0 <= i < grown.len() && 0 <= j < b.len() implies crate::text::before(
        #[trigger] grown[i].0@,
        #[trigger] b[j].0@,
    ) by {
        if i < out.len() && b == b0.drop_first() {
            assert(b[j] == b0[j + 1]);
        }
    }
    assert forall|i: int, j: int|
        0 <= i < grown.len() && 0 <= j < o.len() implies crate::text::before(
        #[trigger] grown[i].0@,
        #[trigger] o[j].0@,
    ) by {
        if i < out.len() && o == o0.drop_first() {
            assert(o[j] == o0[j + 1]);
        }
    }
}

// ── reading a document ──────────────────────────────────────────────────────

impl Table {
    /// An empty table.
    pub fn new() -> (result: Self)
        ensures
            entries_of(result) == Seq::<(Seq<char>, Tree)>::empty(),
    {
        let result = Table { entries: Named::new() };
        assert(entries_of(result) =~= Seq::<(Seq<char>, Tree)>::empty());
        result
    }

    /// What is under `key`.
    pub fn get(&self, key: &str) -> (result: Option<&Item>)
        ensures
            match result {
                Some(value) => find(entries_of(*self), key@) == Some(tree_of(*value)),
                None => find(entries_of(*self), key@) is None,
            },
    {
        proof {
            lemma_branches(*self);
            lemma_find(self.entries@, key@);
        }
        self.entries.get(key)
    }

    /// Puts `value` under `key`, in place of what stood there.
    pub fn insert(&mut self, key: String, value: Item)
        ensures
            entries_of(*final(self)) == put(entries_of(*old(self)), key@, tree_of(value)),
    {
        proof {
            lemma_branches(*self);
            lemma_put(self.entries@, key, value);
        }
        self.entries.insert(key, value);
        proof {
            lemma_branches(*self);
        }
    }
}

impl Item {
    /// The table this is, if it is one.
    pub fn as_table(&self) -> (result: Option<&Table>)
        ensures
            match result {
                Some(table) => *self == Item::Table(*table),
                None => !(self is Table),
            },
    {
        match self {
            Item::Table(table) => Some(table),
            _ => None,
        }
    }

    /// The integer this is, if it is one.
    pub fn as_integer(&self) -> (result: Option<i64>)
        ensures
            match result {
                Some(n) => *self == Item::Integer(n),
                None => !(self is Integer),
            },
    {
        match self {
            Item::Integer(n) => Some(*n),
            _ => None,
        }
    }

    /// The array this is, if it is one.
    pub fn as_array(&self) -> (result: Option<&Vec<Item>>)
        ensures
            match result {
                Some(items) => *self == Item::Array(*items),
                None => !(self is Array),
            },
    {
        match self {
            Item::Array(items) => Some(items),
            _ => None,
        }
    }
}

/// Entries in order with `tree` put under `key`, in place of what stood there.
pub open spec fn put(
    entries: Seq<(Seq<char>, Tree)>,
    key: Seq<char>,
    tree: Tree,
) -> Seq<(Seq<char>, Tree)>
    decreases entries.len(),
{
    if entries.len() == 0 {
        seq![(key, tree)]
    } else if entries[0].0 == key {
        seq![(key, tree)] + entries.drop_first()
    } else if crate::text::before(entries[0].0, key) {
        seq![entries[0]] + put(entries.drop_first(), key, tree)
    } else {
        seq![(key, tree)] + entries
    }
}

proof fn lemma_put(entries: Seq<(String, Item)>, key: String, value: Item)
    ensures
        branches(crate::names::inserted(entries, key, value)) == put(
            branches(entries),
            key@,
            tree_of(value),
        ),
    decreases entries.len(),
{
    let lhs = branches(crate::names::inserted(entries, key, value));
    if entries.len() > 0 {
        assert(branches(entries).drop_first() =~= branches(entries.drop_first()));
        lemma_put(entries.drop_first(), key, value);
    }
    assert(lhs =~= put(branches(entries), key@, tree_of(value)));
}

proof fn lemma_find(entries: Seq<(String, Item)>, key: Seq<char>)
    ensures
        find(branches(entries), key) == (match crate::names::lookup(entries, key) {
            Some(value) => Some(tree_of(value)),
            None => None,
        }),
    decreases entries.len(),
{
    if entries.len() > 0 {
        assert(branches(entries).drop_first() =~= branches(entries.drop_first()));
        lemma_find(entries.drop_first(), key);
    }
}

impl Clone for Item {
    fn clone(&self) -> (result: Self)
        ensures
            tree_of(result) == tree_of(*self),
        decreases *self,
    {
        match self {
            Item::Text(text) => Item::Text(text.clone()),
            Item::Integer(n) => Item::Integer(*n),
            Item::Float(bits) => Item::Float(*bits),
            Item::Boolean(b) => Item::Boolean(*b),
            Item::Datetime(text) => Item::Datetime(text.clone()),
            Item::Array(items) => {
                let mut out: Vec<Item> = Vec::new();
                let mut i: usize = 0;
                while i < items.len()
                    invariant
                        i <= items.len(),
                        *self == Item::Array(*items),
                        out.len() == i,
                        forall|j: int|
                            0 <= j < i ==> tree_of(#[trigger] out@[j]) == tree_of(items@[j]),
                    decreases items.len() - i,
                {
                    let item = &items[i];
                    proof {
                        assert(decreases_to!(*self => self->Array_0));
                        assert(decreases_to!(*items => items[i as int]));
                    }
                    out.push(item.clone());
                    i += 1;
                }
                let result = Item::Array(out);
                assert(tree_of(result)->Array_0 =~= tree_of(*self)->Array_0);
                result
            },
            Item::Table(table) => {
                Item::Table(table.clone())
            },
        }
    }
}

impl Clone for Table {
    fn clone(&self) -> (result: Self)
        ensures
            entries_of(result) == entries_of(*self),
        decreases *self,
    {
        let entries = self.entries.entries();
        let mut out: Vec<(String, Item)> = Vec::new();
        let mut i: usize = 0;
        while i < entries.len()
            invariant
                i <= entries.len(),
                entries@ == self.entries@,
                crate::names::ascending(entries@),
                out.len() == i,
                forall|j: int|
                    0 <= j < i ==> (#[trigger] out@[j]).0@ == entries@[j].0@ && tree_of(out@[j].1)
                        == tree_of(entries@[j].1),
            decreases entries.len() - i,
        {
            proof {
                crate::names::lemma_entry_decreases(self.entries, i as int);
                assert(decreases_to!(*self => self.entries));
            }
            out.push((entries[i].0.clone(), entries[i].1.clone()));
            i += 1;
        }
        let result = Table { entries: Named::from_sorted(out) };
        assert(entries_of(result) =~= entries_of(*self));
        result
    }
}

// ── inheritance ─────────────────────────────────────────────────────────────

/// A profile with section `name` resolved: the default section with the profile's own, if it
/// has one, merged over it.
pub open spec fn with_section(
    defaults: Seq<(Seq<char>, Tree)>,
    profile: Seq<(Seq<char>, Tree)>,
    name: Seq<char>,
) -> Seq<(Seq<char>, Tree)> {
    match find(defaults, name) {
        Some(Tree::Table(base)) => put(
            profile,
            name,
            Tree::Table(
                match find(profile, name) {
                    Some(Tree::Table(own)) => merged(base, own),
                    _ => base,
                },
            ),
        ),
        _ => profile,
    }
}

/// A profile with every inheritable section resolved.
pub open spec fn resolved(
    defaults: Seq<(Seq<char>, Tree)>,
    profile: Seq<(Seq<char>, Tree)>,
) -> Seq<(Seq<char>, Tree)> {
    with_section(
        defaults,
        with_section(defaults, with_section(defaults, profile, "capture"@), "session"@),
        "continuation"@,
    )
}

/// An entry under `profiles`, resolved when it is a table.
pub open spec fn resolved_entry(defaults: Seq<(Seq<char>, Tree)>, entry: (Seq<char>, Tree)) -> (
    Seq<char>,
    Tree,
) {
    match entry.1 {
        Tree::Table(profile) => (entry.0, Tree::Table(resolved(defaults, profile))),
        _ => entry,
    }
}

/// The entries under `profiles`, each resolved.
pub open spec fn resolved_all(
    defaults: Seq<(Seq<char>, Tree)>,
    profiles: Seq<(Seq<char>, Tree)>,
) -> Seq<(Seq<char>, Tree)> {
    profiles.map_values(|entry: (Seq<char>, Tree)| resolved_entry(defaults, entry))
}

/// A document in which every profile carries its own complete copy of the inheritable
/// sections.
pub open spec fn inherited(document: Seq<(Seq<char>, Tree)>) -> Seq<(Seq<char>, Tree)> {
    match (find(document, "defaults"@), find(document, "profiles"@)) {
        (Some(Tree::Table(defaults)), Some(Tree::Table(profiles))) => put(
            document,
            "profiles"@,
            Tree::Table(resolved_all(defaults, profiles)),
        ),
        _ => document,
    }
}

/// Give every profile its own complete copy of the inheritable sections.
pub fn inherit_defaults(document: &mut Table)
    ensures
        entries_of(*final(document)) == inherited(entries_of(*old(document))),
{
    let defaults = match document.get("defaults") {
        Some(Item::Table(defaults)) => defaults.clone(),
        _ => {
            return;
        },
    };
    let profiles = match document.get("profiles") {
        Some(Item::Table(profiles)) => profiles.clone(),
        _ => {
            return;
        },
    };
    let ghost listed = profiles;
    let entries = profiles.entries.into_entries();
    let ghost base = entries_of(defaults);
    let mut out: Vec<(String, Item)> = Vec::new();
    let mut i: usize = 0;
    while i < entries.len()
        invariant
            i <= entries.len(),
            base == entries_of(defaults),
            crate::names::ascending(entries@),
            out.len() == i,
            forall|j: int|
                0 <= j < i ==> ((#[trigger] out@[j]).0@, tree_of(out@[j].1)) == resolved_entry(
                    base,
                    (entries@[j].0@, tree_of(entries@[j].1)),
                ),
        decreases entries.len() - i,
    {
        let value = match &entries[i].1 {
            Item::Table(profile) => {
                let mut own = profile.clone();
                inherit_section(&defaults, &mut own, "capture");
                inherit_section(&defaults, &mut own, "session");
                inherit_section(&defaults, &mut own, "continuation");
                Item::Table(own)
            },
            other => other.clone(),
        };
        out.push((entries[i].0.clone(), value));
        i += 1;
    }
    proof {
        assert forall|a: int, b: int| 0 <= a < b < out@.len() implies crate::text::before(
            #[trigger] out@[a].0@,
            #[trigger] out@[b].0@,
        ) by {
            assert(out@[a].0@ == entries@[a].0@);
            assert(out@[b].0@ == entries@[b].0@);
        }
    }
    let all = Table { entries: Named::from_sorted(out) };
    proof {
        lemma_branches(listed);
        lemma_branches(all);
        assert(entries_of(all) =~= resolved_all(base, entries_of(listed)));
    }
    document.insert("profiles".to_owned(), Item::Table(all));
}

fn inherit_section(defaults: &Table, profile: &mut Table, name: &str)
    ensures
        entries_of(*final(profile)) == with_section(
            entries_of(*defaults),
            entries_of(*old(profile)),
            name@,
        ),
{
    let mut section = match defaults.get(name) {
        Some(Item::Table(base)) => base.clone(),
        _ => {
            return;
        },
    };
    match profile.get(name) {
        Some(Item::Table(own)) => {
            merge_into(&mut section, own.clone());
        },
        _ => {},
    }
    profile.insert(name.to_owned(), Item::Table(section));
}

// ── what merging promises ───────────────────────────────────────────────────

/// What a key becomes: the overlay's value, merged into the base's where both are tables; or
/// the base's where the overlay has none.
pub open spec fn layered(base: Option<Tree>, overlay: Option<Tree>) -> Option<Tree> {
    match (base, overlay) {
        (Some(b), Some(o)) => Some(combined(b, o)),
        (None, Some(o)) => Some(o),
        (b, None) => b,
    }
}

/// Later layers win key by key: under every key, the merge holds what that key becomes.
pub proof fn law_later_layers_win_key_by_key(
    base: Seq<(Seq<char>, Tree)>,
    overlay: Seq<(Seq<char>, Tree)>,
    key: Seq<char>,
)
    requires
        sorted(base),
        sorted(overlay),
    ensures
        find(merged(base, overlay), key) == layered(find(base, key), find(overlay, key)),
    decreases base.len() + overlay.len(),
{
    if base.len() > 0 && overlay.len() > 0 {
        let b = base.drop_first();
        let o = overlay.drop_first();
        lemma_sorted_tail(base);
        lemma_sorted_tail(overlay);
        if base[0].0 == overlay[0].0 {
            law_later_layers_win_key_by_key(b, o, key);
            let head = (overlay[0].0, combined(base[0].1, overlay[0].1));
            assert((seq![head] + merged(b, o)).drop_first() =~= merged(b, o));
        } else if crate::text::before(base[0].0, overlay[0].0) {
            law_later_layers_win_key_by_key(b, overlay, key);
            assert((seq![base[0]] + merged(b, overlay)).drop_first() =~= merged(b, overlay));
            if key == base[0].0 {
                lemma_absent(overlay, key);
            }
        } else {
            law_later_layers_win_key_by_key(base, o, key);
            assert((seq![overlay[0]] + merged(base, o)).drop_first() =~= merged(base, o));
            if key == overlay[0].0 {
                crate::text::lemma_before_total(base[0].0, overlay[0].0);
                lemma_absent(base, key);
            }
        }
    }
}

proof fn lemma_sorted_tail(entries: Seq<(Seq<char>, Tree)>)
    requires
        sorted(entries),
        entries.len() > 0,
    ensures
        sorted(entries.drop_first()),
{
    let tail = entries.drop_first();
    assert forall|i: int, j: int| 0 <= i < j < tail.len() implies crate::text::before(
        #[trigger] tail[i].0,
        #[trigger] tail[j].0,
    ) by {
        assert(tail[i] == entries[i + 1]);
        assert(tail[j] == entries[j + 1]);
    }
}

/// A key that comes before the first of a sorted list is not in it.
proof fn lemma_absent(entries: Seq<(Seq<char>, Tree)>, key: Seq<char>)
    requires
        sorted(entries),
        entries.len() > 0 ==> crate::text::before(key, entries[0].0),
    ensures
        find(entries, key) is None,
    decreases entries.len(),
{
    if entries.len() > 0 {
        crate::text::lemma_before_irreflexive(key);
        lemma_sorted_tail(entries);
        let tail = entries.drop_first();
        if tail.len() > 0 {
            assert(tail[0] == entries[1]);
            crate::text::lemma_before_transitive(key, entries[0].0, entries[1].0);
        }
        lemma_absent(tail, key);
    }
}

/// A profile override is a patch, not a replacement: in a section both sides have, a key the
/// profile does not mention keeps its default.
pub proof fn law_an_override_is_a_patch(
    defaults: Seq<(Seq<char>, Tree)>,
    own: Seq<(Seq<char>, Tree)>,
    key: Seq<char>,
)
    requires
        sorted(defaults),
        sorted(own),
    ensures
        find(own, key) is None ==> find(merged(defaults, own), key) == find(defaults, key),
        find(own, key) matches Some(tree) ==> !(tree is Table) ==> find(
            merged(defaults, own),
            key,
        ) == Some(tree),
{
    law_later_layers_win_key_by_key(defaults, own, key);
}

/// Arrays replace rather than accumulate.
pub proof fn law_arrays_replace(base: Tree, items: Seq<Tree>)
    ensures
        combined(base, Tree::Array(items)) == Tree::Array(items),
{
}

/// Merging nothing changes nothing.
pub proof fn law_an_empty_layer_changes_nothing(base: Seq<(Seq<char>, Tree)>)
    ensures
        merged(base, Seq::empty()) == base,
{
}

/// Merging the same layer a second time changes nothing.
pub proof fn law_merging_twice_changes_nothing(
    base: Seq<(Seq<char>, Tree)>,
    overlay: Seq<(Seq<char>, Tree)>,
)
    ensures
        merged(merged(base, overlay), overlay) == merged(base, overlay),
    decreases overlay, base.len(),
{
    let once = merged(base, overlay);
    if overlay.len() > 0 {
        assert(decreases_to!(overlay => overlay.subrange(1, overlay.len() as int)));
        let o = overlay.drop_first();
        if base.len() == 0 {
            lemma_merged_with_itself(overlay);
        } else if base[0].0 == overlay[0].0 {
            let b = base.drop_first();
            law_merging_twice_changes_nothing(b, o);
            lemma_combined_twice(base[0].1, overlay[0].1);
            assert(once.drop_first() =~= merged(b, o));
        } else if crate::text::before(base[0].0, overlay[0].0) {
            let b = base.drop_first();
            law_merging_twice_changes_nothing(b, overlay);
            assert(once.drop_first() =~= merged(b, overlay));
            assert(once[0] == base[0]);
        } else {
            law_merging_twice_changes_nothing(base, o);
            lemma_combined_with_itself(overlay[0].1);
            assert(once.drop_first() =~= merged(base, o));
            assert(once[0] == overlay[0]);
        }
    }
}

proof fn lemma_combined_twice(base: Tree, overlay: Tree)
    ensures
        combined(combined(base, overlay), overlay) == combined(base, overlay),
    decreases overlay, 0nat,
{
    match (base, overlay) {
        (Tree::Table(b), Tree::Table(o)) => law_merging_twice_changes_nothing(b, o),
        _ => lemma_combined_with_itself(overlay),
    }
}

proof fn lemma_merged_with_itself(entries: Seq<(Seq<char>, Tree)>)
    ensures
        merged(entries, entries) == entries,
    decreases entries, entries.len(),
{
    if entries.len() > 0 {
        assert(decreases_to!(entries => entries.subrange(1, entries.len() as int)));
        lemma_merged_with_itself(entries.drop_first());
        lemma_combined_with_itself(entries[0].1);
        assert(seq![entries[0]] + entries.drop_first() =~= entries);
    }
}

proof fn lemma_combined_with_itself(tree: Tree)
    ensures
        combined(tree, tree) == tree,
    decreases tree, 0nat,
{
    match tree {
        Tree::Table(entries) => lemma_merged_with_itself(entries),
        _ => {},
    }
}

proof fn lemma_put_find(
    entries: Seq<(Seq<char>, Tree)>,
    key: Seq<char>,
    tree: Tree,
    other: Seq<char>,
)
    ensures
        find(put(entries, key, tree), other) == if other == key {
            Some(tree)
        } else {
            find(entries, other)
        },
    decreases entries.len(),
{
    let after = put(entries, key, tree);
    if entries.len() == 0 {
        assert(after[0] == (key, tree));
        assert(after.drop_first() =~= Seq::empty());
        assert(find(Seq::<(Seq<char>, Tree)>::empty(), other) is None);
    } else if entries[0].0 == key {
        assert(after[0] == (key, tree));
        assert(after.drop_first() =~= entries.drop_first());
    } else if crate::text::before(entries[0].0, key) {
        assert(after[0] == entries[0]);
        assert(after.drop_first() =~= put(entries.drop_first(), key, tree));
        lemma_put_find(entries.drop_first(), key, tree, other);
    } else {
        assert(after[0] == (key, tree));
        assert(after.drop_first() =~= entries);
    }
}

/// Setting a key sets it and leaves every other as it was.
pub proof fn law_setting_a_key_leaves_the_others(
    entries: Seq<(Seq<char>, Tree)>,
    key: Seq<char>,
    tree: Tree,
    other: Seq<char>,
)
    requires
        other != key,
    ensures
        find(put(entries, key, tree), key) == Some(tree),
        find(put(entries, key, tree), other) == find(entries, other),
{
    lemma_put_find(entries, key, tree, key);
    lemma_put_find(entries, key, tree, other);
}

proof fn lemma_section(
    defaults: Seq<(Seq<char>, Tree)>,
    profile: Seq<(Seq<char>, Tree)>,
    name: Seq<char>,
    key: Seq<char>,
)
    ensures
        key != name ==> find(with_section(defaults, profile, name), key) == find(profile, key),
        find(with_section(defaults, profile, name), name) == (match (
            find(defaults, name),
            find(profile, name),
        ) {
            (Some(Tree::Table(base)), Some(Tree::Table(own))) => Some(
                Tree::Table(merged(base, own)),
            ),
            (Some(Tree::Table(base)), _) => Some(Tree::Table(base)),
            (_, own) => own,
        }),
{
    match find(defaults, name) {
        Some(Tree::Table(base)) => {
            let tree = Tree::Table(
                match find(profile, name) {
                    Some(Tree::Table(own)) => merged(base, own),
                    _ => base,
                },
            );
            lemma_put_find(profile, name, tree, key);
            lemma_put_find(profile, name, tree, name);
        },
        _ => {},
    }
}

/// A profile inherits its capture, its session and its continuation settings, each key by key
/// under what it says itself, and nothing else: every other key is its own.
pub proof fn law_a_profile_inherits_three_sections(
    defaults: Seq<(Seq<char>, Tree)>,
    profile: Seq<(Seq<char>, Tree)>,
    key: Seq<char>,
)
    ensures
        key == "capture"@ || key == "session"@ || key == "continuation"@ ==> find(
            resolved(defaults, profile),
            key,
        ) == (match (find(defaults, key), find(profile, key)) {
            (Some(Tree::Table(base)), Some(Tree::Table(own))) => Some(
                Tree::Table(merged(base, own)),
            ),
            (Some(Tree::Table(base)), _) => Some(Tree::Table(base)),
            (_, own) => own,
        }),
        key != "capture"@ && key != "session"@ && key != "continuation"@ ==> find(
            resolved(defaults, profile),
            key,
        ) == find(profile, key),
{
    assert("capture"@ != "session"@ && "capture"@ != "continuation"@ && "session"@
        != "continuation"@) by {
        reveal_strlit("capture");
        reveal_strlit("session");
        reveal_strlit("continuation");
        assert("capture"@[0] == 'c' && "session"@[0] == 's');
        assert("continuation"@.len() == 12 && "session"@.len() == 7 && "capture"@.len() == 7);
    }
    let first = with_section(defaults, profile, "capture"@);
    let second = with_section(defaults, first, "session"@);
    lemma_section(defaults, profile, "capture"@, key);
    lemma_section(defaults, first, "session"@, key);
    lemma_section(defaults, second, "continuation"@, key);
    lemma_section(defaults, profile, "capture"@, "session"@);
    lemma_section(defaults, profile, "capture"@, "continuation"@);
    lemma_section(defaults, first, "session"@, "continuation"@);
    lemma_section(defaults, first, "session"@, "capture"@);
    lemma_section(defaults, second, "continuation"@, "capture"@);
    lemma_section(defaults, second, "continuation"@, "session"@);
}

/// Inheriting touches the profiles alone: every other key of a document stays as it is, and
/// without defaults nothing changes.
pub proof fn law_only_profiles_inherit(document: Seq<(Seq<char>, Tree)>, key: Seq<char>)
    ensures
        key != "profiles"@ ==> find(inherited(document), key) == find(document, key),
        !(find(document, "defaults"@) matches Some(Tree::Table(_))) ==> inherited(document)
            == document,
{
    match (find(document, "defaults"@), find(document, "profiles"@)) {
        (Some(Tree::Table(defaults)), Some(Tree::Table(profiles))) => {
            let tree = Tree::Table(resolved_all(defaults, profiles));
            lemma_put_find(document, "profiles"@, tree, key);
        },
        _ => {},
    }
}

/// Every profile of a document inherits from its defaults, under its own name and in its own
/// place; none is added and none is left out.
pub proof fn law_every_profile_inherits(
    document: Seq<(Seq<char>, Tree)>,
    defaults: Seq<(Seq<char>, Tree)>,
    profiles: Seq<(Seq<char>, Tree)>,
    i: int,
)
    requires
        find(document, "defaults"@) == Some(Tree::Table(defaults)),
        find(document, "profiles"@) == Some(Tree::Table(profiles)),
        0 <= i < profiles.len(),
    ensures
        find(inherited(document), "profiles"@) matches Some(Tree::Table(after)) && after.len()
            == profiles.len() && after[i].0 == profiles[i].0 && (
        profiles[i].1 matches Tree::Table(own) ==> after[i].1 == Tree::Table(
            resolved(defaults, own),
        )) && (!(profiles[i].1 is Table) ==> after[i].1 == profiles[i].1),
{
    let tree = Tree::Table(resolved_all(defaults, profiles));
    lemma_put_find(document, "profiles"@, tree, "profiles"@);
}

} // verus!
