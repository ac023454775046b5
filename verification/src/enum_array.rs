use std::collections::HashMap;

use vstd::prelude::*;

use crate::cards::{AsIndex, CardSuit, CardValue, Hand};

verus! {

broadcast use vstd::std_specs::hash::group_hash_axioms;

/// An item kept in an array with one slot per variant of `Indexer`.
pub trait Indexer: Sized {
    type Indexer: AsIndex;
}

/// Whether a card of one suit has been played.
#[derive(Debug, Clone, Copy, PartialEq, Eq)]
pub struct Played(pub bool);

impl Default for Played {
    fn default() -> (r: Self)
        ensures
            r == Played(false),
    {
        Played(false)
    }
}

impl Indexer for Played {
    type Indexer = CardSuit;
}

/// How often a rank has been played, and in which suits.
#[derive(Debug, Clone, Copy, PartialEq, Eq)]
pub struct CardPlayed {
    /// One slot per suit, in `CardSuit` order.
    pub suits: [Played; 4],
    pub total: u64,
}

impl Default for CardPlayed {
    fn default() -> (r: Self)
        ensures
            r.suits@ == seq![Played(false), Played(false), Played(false), Played(false)],
            r.total == 0,
    {
        CardPlayed { suits: [Played(false), Played(false), Played(false), Played(false)], total: 0 }
    }
}

impl Indexer for CardPlayed {
    type Indexer = CardValue;
}

/// How often a poker hand has been played.
#[derive(Debug, Clone, Copy, PartialEq, Eq)]
pub struct HandUsage {
    pub count: u16,
}

impl Default for HandUsage {
    fn default() -> (r: Self)
        ensures
            r == (HandUsage { count: 0 }),
    {
        HandUsage { count: 0 }
    }
}

impl Indexer for HandUsage {
    type Indexer = Hand;
}

/// The scoring state of one poker hand.
#[derive(Debug, Clone, Copy, PartialEq, Eq)]
pub struct HandData {
    pub chips: u64,
    pub l_chips: u64,
    pub l_mult: u64,
    pub level: u64,
    pub mult: u64,
    pub played: u64,
    pub played_this_round: u64,
    pub s_chips: u32,
    pub s_mult: u32,
}

impl Default for HandData {
    fn default() -> (r: Self)
        ensures
            r == (HandData {
                chips: 0,
                l_chips: 0,
                l_mult: 0,
                level: 0,
                mult: 0,
                played: 0,
                played_this_round: 0,
                s_chips: 0,
                s_mult: 0,
            }),
    {
        HandData {
            chips: 0,
            l_chips: 0,
            l_mult: 0,
            level: 0,
            mult: 0,
            played: 0,
            played_this_round: 0,
            s_chips: 0,
            s_mult: 0,
        }
    }
}

impl Indexer for HandData {
    type Indexer = Hand;
}

/// Why the entries of a per-variant table were refused.
#[derive(Debug, PartialEq, Eq)]
pub enum ArrayError {
    /// The key names no variant of the index enum.
    UnknownVariant(String),
}

/// Some variant of `K` is named `name`.
pub open spec fn names_variant<K: AsIndex>(name: Seq<char>) -> bool {
    exists|v: K| #[trigger] v.spec_name() == name
}

/// Every key of `entries` names a variant of `K`.
pub open spec fn all_names_known<K: AsIndex, T>(entries: Seq<(String, T)>) -> bool {
    forall|j: int| 0 <= j < entries.len() ==> names_variant::<K>(#[trigger] entries[j].0@)
}

/// The value of the last entry whose key is `name`: a table read from the game
/// state keeps, for a key written twice, the later value.
pub open spec fn last_entry_named<T>(entries: Seq<(String, T)>, name: Seq<char>) -> Option<T>
    decreases entries.len(),
{
    if entries.len() == 0 {
        None
    } else if entries.last().0@ == name {
        Some(entries.last().1)
    } else {
        last_entry_named(entries.drop_last(), name)
    }
}

/// `r` is the outcome of reading `entries` as a table keyed by the variants of
/// `K`, one slot per variant in declaration order; a variant without an entry
/// gets a value that `T::default()` returns.
pub open spec fn is_indexed_table<K: AsIndex, T: Default>(
    entries: Seq<(String, T)>,
    r: Seq<T>,
) -> bool {
    &&& r.len() == K::spec_count()
    &&& forall|v: K|
        #![trigger v.spec_index()]
        match last_entry_named(entries, v.spec_name()) {
            Some(x) => r[v.spec_index() as int] == x,
            None => call_ensures(T::default, (), r[v.spec_index() as int]),
        }
}

/// `name` is the key of the first entry that names no variant of `K`.
pub open spec fn is_first_unknown<K: AsIndex, T>(entries: Seq<(String, T)>, name: Seq<char>) -> bool {
    exists|j: int|
        0 <= j < entries.len() && #[trigger] entries[j].0@ == name && !names_variant::<K>(name)
            && all_names_known::<K, T>(entries.take(j))
}

proof fn lemma_last_entry_step<T>(entries: Seq<(String, T)>, j: int, name: Seq<char>)
    requires
        0 <= j < entries.len(),
    ensures
        last_entry_named(entries.take(j + 1), name) == (if entries[j].0@ == name {
            Some(entries[j].1)
        } else {
            last_entry_named(entries.take(j), name)
        }),
{
    assert(entries.take(j + 1).drop_last() =~= entries.take(j));
}

/// Reads the entries of a table keyed by the names of `T::Indexer` into one
/// slot per variant, ordered by `as_index`. With `default` a variant without
/// an entry gets `T::default()`; without it every variant must have an entry.
pub fn enum_array_inner<T: Indexer + Copy + Default>(entries: &Vec<(String, T)>, default: bool) -> (r:
    Result<Vec<T>, ArrayError>)
    requires
        !default && all_names_known::<T::Indexer, T>(entries@) ==> forall|v: T::Indexer|
            #[trigger] last_entry_named(entries@, v.spec_name()) is Some,
    ensures
        is_table_outcome::<T::Indexer, T>(entries@, outcome_of(r)),
{
    let count = T::Indexer::variant_count();
    let mut temp: HashMap<u8, T> = HashMap::new();
    let n = entries.len();
    let mut j: usize = 0;
    while j < n
        invariant
            n == entries@.len(),
            j <= n,
            count as nat == T::Indexer::spec_count(),
            all_names_known::<T::Indexer, T>(entries@.take(j as int)),
            forall|k: u8| #[trigger]
                temp@.contains_key(k) ==> (k as nat) < T::Indexer::spec_count(),
            forall|v: T::Indexer|
                #![trigger v.spec_name()]
                temp@.contains_key(v.spec_index() as u8) == last_entry_named(
                    entries@.take(j as int),
                    v.spec_name(),
                ) is Some,
            forall|v: T::Indexer|
                #![trigger v.spec_name()]
                temp@.contains_key(v.spec_index() as u8) ==> Some(temp@[v.spec_index() as u8])
                    == last_entry_named(entries@.take(j as int), v.spec_name()),
        decreases n - j,
    {
        let key = &entries[j].0;
        let item: T = entries[j].1;
        proof {
            assert forall|v: T::Indexer|
                #![trigger v.spec_name()]
                last_entry_named(entries@.take(j + 1), v.spec_name()) == (if entries@[j as int].0@
                    == v.spec_name() {
                    Some(entries@[j as int].1)
                } else {
                    last_entry_named(entries@.take(j as int), v.spec_name())
                }) by {
                lemma_last_entry_step(entries@, j as int, v.spec_name());
            }
        }
        match T::Indexer::from_name(key.as_str()) {
            None => {
                proof {
                    assert(!names_variant::<T::Indexer>(key@));
                    assert(entries@[j as int].0@ == key@);
                }
                return Err(ArrayError::UnknownVariant(key.clone()));
            },
            Some(found) => {
                let idx = found.as_index();
                let ghost old_temp = temp@;
                temp.insert(idx, item);
                proof {
                    T::Indexer::lemma_index_bijection(found, found);
                    assert forall|v: T::Indexer|
                        #![trigger v.spec_name()]
                        temp@.contains_key(v.spec_index() as u8) == last_entry_named(
                            entries@.take(j + 1),
                            v.spec_name(),
                        ) is Some && (temp@.contains_key(v.spec_index() as u8) ==> Some(
                            temp@[v.spec_index() as u8],
                        ) == last_entry_named(entries@.take(j + 1), v.spec_name())) by {
                        T::Indexer::lemma_index_bijection(v, found);
                    }
                    assert forall|m: int| 0 <= m < j + 1 implies names_variant::<T::Indexer>(
                        #[trigger] entries@.take(j + 1)[m].0@,
                    ) by {
                        if m < j {
                            assert(entries@.take(j + 1)[m] == entries@.take(j as int)[m]);
                        } else {
                            assert(found.spec_name() == entries@.take(j + 1)[m].0@);
                        }
                    }
                }
            },
        }
        j = j + 1;
    }
    proof {
        assert(entries@.take(n as int) =~= entries@);
    }
    let mut out: Vec<T> = Vec::new();
    let mut i: u8 = 0;
    while i < count
        invariant
            count as nat == T::Indexer::spec_count(),
            i <= count,
            out@.len() == i,
            all_names_known::<T::Indexer, T>(entries@),
            !default ==> forall|v: T::Indexer|
                #[trigger] last_entry_named(entries@, v.spec_name()) is Some,
            forall|v: T::Indexer|
                #![trigger v.spec_name()]
                temp@.contains_key(v.spec_index() as u8) == last_entry_named(
                    entries@,
                    v.spec_name(),
                ) is Some,
            forall|v: T::Indexer|
                #![trigger v.spec_name()]
                temp@.contains_key(v.spec_index() as u8) ==> Some(temp@[v.spec_index() as u8])
                    == last_entry_named(entries@, v.spec_name()),
            forall|m: int|
                0 <= m < i ==> match last_entry_named(
                    entries@,
                    (#[trigger] T::Indexer::spec_variant(m as nat)).spec_name(),
                ) {
                    Some(x) => out@[m] == x,
                    None => call_ensures(T::default, (), out@[m]),
                },
        decreases count - i,
    {
        let ghost v = T::Indexer::spec_variant(i as nat);
        proof {
            T::Indexer::lemma_variant_index(i as nat);
            assert(v.spec_name() == v.spec_name());
        }
        let found: Option<T> = match temp.get(&i) {
            Some(x) => Some(*x),
            None => None,
        };
        let item: T = if default {
            match found {
                Some(x) => x,
                None => T::default(),
            }
        } else {
            found.unwrap()
        };
        out.push(item);
        proof {
            assert forall|m: int|
                0 <= m < i + 1 implies match last_entry_named(
                entries@,
                (#[trigger] T::Indexer::spec_variant(m as nat)).spec_name(),
            ) {
                Some(x) => out@[m] == x,
                None => call_ensures(T::default, (), out@[m]),
            } by {
                if m == i {
                    assert(T::Indexer::spec_variant(m as nat) == v);
                }
            }
        }
        i = i + 1;
    }
    proof {
        assert forall|v: T::Indexer|
            #![trigger v.spec_index()]
            match last_entry_named(entries@, v.spec_name()) {
                Some(x) => out@[v.spec_index() as int] == x,
                None => call_ensures(T::default, (), out@[v.spec_index() as int]),
            } by {
            T::Indexer::lemma_index_bijection(v, v);
            let m = v.spec_index() as int;
            assert(0 <= m < i);
            assert(T::Indexer::spec_variant(m as nat) == v);
        }
    }
    Ok(out)
}

/// When every variant has an entry, the table is fixed by the entries alone:
/// reading it with or without defaults gives the same slots.
pub proof fn lemma_table_determined<K: AsIndex, T: Default>(
    entries: Seq<(String, T)>,
    a: Seq<T>,
    b: Seq<T>,
)
    requires
        is_indexed_table::<K, T>(entries, a),
        is_indexed_table::<K, T>(entries, b),
        forall|v: K| #[trigger] last_entry_named(entries, v.spec_name()) is Some,
    ensures
        a == b,
{
    assert forall|m: int| 0 <= m < a.len() implies a[m] == b[m] by {
        K::lemma_variant_index(m as nat);
        let v = K::spec_variant(m as nat);
        assert(last_entry_named(entries, v.spec_name()) is Some);
        assert(v.spec_index() == m);
    }
    assert(a =~= b);
}

/// What a reading of a table gives, by views: the slots, or the unknown key.
pub open spec fn outcome_of<T>(r: Result<Vec<T>, ArrayError>) -> Result<Seq<T>, Seq<char>> {
    match r {
        Ok(table) => Ok(table@),
        Err(ArrayError::UnknownVariant(name)) => Err(name@),
    }
}

/// `r` is an outcome of reading `entries` keyed by the variants of `K`: the
/// slots when every key names a variant, else the first key that does not.
pub open spec fn is_table_outcome<K: AsIndex, T: Default>(
    entries: Seq<(String, T)>,
    r: Result<Seq<T>, Seq<char>>,
) -> bool {
    match r {
        Ok(table) => all_names_known::<K, T>(entries) && is_indexed_table::<K, T>(entries, table),
        Err(name) => !all_names_known::<K, T>(entries) && is_first_unknown::<K, T>(entries, name),
    }
}

/// No two entries share a key.
pub open spec fn distinct_keys<T>(entries: Seq<(String, T)>) -> bool {
    forall|i: int, j: int|
        0 <= i < entries.len() && 0 <= j < entries.len() && i != j ==> #[trigger] entries[i].0@
            != #[trigger] entries[j].0@
}

/// Every entry of `a` occurs in `b`, by key and value.
pub open spec fn entries_within<T>(a: Seq<(String, T)>, b: Seq<(String, T)>) -> bool {
    forall|i: int|
        0 <= i < a.len() ==> exists|j: int|
            0 <= j < b.len() && #[trigger] b[j].0@ == #[trigger] a[i].0@ && b[j].1 == a[i].1
}

proof fn lemma_last_entry_distinct<T>(entries: Seq<(String, T)>, name: Seq<char>)
    requires
        distinct_keys(entries),
    ensures
        forall|i: int|
            0 <= i < entries.len() && #[trigger] entries[i].0@ == name ==> last_entry_named(
                entries,
                name,
            ) == Some(entries[i].1),
        (forall|i: int| 0 <= i < entries.len() ==> #[trigger] entries[i].0@ != name)
            ==> last_entry_named(entries, name) is None,
    decreases entries.len(),
{
    if entries.len() > 0 {
        let rest = entries.drop_last();
        assert forall|i: int, j: int|
            0 <= i < rest.len() && 0 <= j < rest.len() && i != j implies #[trigger] rest[i].0@
            != #[trigger] rest[j].0@ by {
            assert(rest[i] == entries[i] && rest[j] == entries[j]);
        }
        lemma_last_entry_distinct(rest, name);
        assert forall|i: int|
            0 <= i < entries.len() && #[trigger] entries[i].0@ == name implies last_entry_named(
            entries,
            name,
        ) == Some(entries[i].1) by {
            if i < entries.len() - 1 {
                assert(rest[i] == entries[i]);
                assert(entries[entries.len() - 1].0@ != entries[i].0@);
            }
        }
        if forall|i: int| 0 <= i < entries.len() ==> #[trigger] entries[i].0@ != name {
            assert forall|i: int| 0 <= i < rest.len() implies #[trigger] rest[i].0@ != name by {
                assert(rest[i] == entries[i]);
            }
            assert(entries[entries.len() - 1].0@ != name);
        }
    }
}

proof fn lemma_last_entry_within<T>(a: Seq<(String, T)>, b: Seq<(String, T)>, name: Seq<char>)
    requires
        distinct_keys(a),
        distinct_keys(b),
        entries_within(a, b),
        entries_within(b, a),
    ensures
        last_entry_named(a, name) == last_entry_named(b, name),
{
    lemma_last_entry_distinct(a, name);
    lemma_last_entry_distinct(b, name);
    if exists|i: int| 0 <= i < a.len() && #[trigger] a[i].0@ == name {
        let i = choose|i: int| 0 <= i < a.len() && #[trigger] a[i].0@ == name;
        let j = choose|j: int| 0 <= j < b.len() && #[trigger] b[j].0@ == #[trigger] a[i].0@ && b[j].1 == a[i].1;
        assert(b[j].0@ == name);
    } else {
        assert forall|j: int| 0 <= j < b.len() implies #[trigger] b[j].0@ != name by {
            if b[j].0@ == name {
                let i = choose|i: int|
                    0 <= i < a.len() && #[trigger] a[i].0@ == #[trigger] b[j].0@ && a[i].1 == b[j].1;
                assert(a[i].0@ == name);
            }
        }
    }
}

/// The order in which a table lists its entries does not matter when no key
/// is written twice: two listings of the same keys and values have the same
/// last entry for every name, know the same names, and admit the same slots.
pub proof fn lemma_table_order_free<K: AsIndex, T: Default>(
    a: Seq<(String, T)>,
    b: Seq<(String, T)>,
    table: Seq<T>,
)
    requires
        distinct_keys(a),
        distinct_keys(b),
        entries_within(a, b),
        entries_within(b, a),
    ensures
        forall|name: Seq<char>| #[trigger] last_entry_named(a, name) == last_entry_named(b, name),
        all_names_known::<K, T>(a) == all_names_known::<K, T>(b),
        is_indexed_table::<K, T>(a, table) == is_indexed_table::<K, T>(b, table),
{
    assert forall|name: Seq<char>| #[trigger] last_entry_named(a, name) == last_entry_named(b, name) by {
        lemma_last_entry_within(a, b, name);
    }
    if all_names_known::<K, T>(a) {
        assert forall|j: int| 0 <= j < b.len() implies names_variant::<K>(#[trigger] b[j].0@) by {
            let i = choose|i: int| 0 <= i < a.len() && #[trigger] a[i].0@ == #[trigger] b[j].0@ && a[i].1 == b[j].1;
            assert(names_variant::<K>(a[i].0@));
        }
    }
    if all_names_known::<K, T>(b) {
        assert forall|i: int| 0 <= i < a.len() implies names_variant::<K>(#[trigger] a[i].0@) by {
            let j = choose|j: int| 0 <= j < b.len() && #[trigger] b[j].0@ == #[trigger] a[i].0@ && b[j].1 == a[i].1;
            assert(names_variant::<K>(b[j].0@));
        }
    }
}

/// Only one key is the first unknown one.
proof fn lemma_first_unknown_unique<K: AsIndex, T>(
    entries: Seq<(String, T)>,
    x: Seq<char>,
    y: Seq<char>,
)
    requires
        is_first_unknown::<K, T>(entries, x),
        is_first_unknown::<K, T>(entries, y),
    ensures
        x == y,
{
    let i = choose|i: int|
        0 <= i < entries.len() && #[trigger] entries[i].0@ == x && !names_variant::<K>(x)
            && all_names_known::<K, T>(entries.take(i));
    let j = choose|j: int|
        0 <= j < entries.len() && #[trigger] entries[j].0@ == y && !names_variant::<K>(y)
            && all_names_known::<K, T>(entries.take(j));
    if i < j {
        assert(entries.take(j)[i] == entries[i]);
    } else if j < i {
        assert(entries.take(i)[j] == entries[j]);
    }
}

/// A reading whose every slot comes from an entry has one outcome: reading
/// with defaults, without them, or through `enum_array` or
/// `enum_array_inner` gives the same table or refuses the same key.
pub proof fn lemma_outcome_determined<K: AsIndex, T: Default>(
    entries: Seq<(String, T)>,
    x: Result<Seq<T>, Seq<char>>,
    y: Result<Seq<T>, Seq<char>>,
)
    requires
        is_table_outcome::<K, T>(entries, x),
        is_table_outcome::<K, T>(entries, y),
        all_names_known::<K, T>(entries) ==> forall|v: K|
            #[trigger] last_entry_named(entries, v.spec_name()) is Some,
    ensures
        x == y,
{
    match (x, y) {
        (Ok(a), Ok(b)) => {
            lemma_table_determined::<K, T>(entries, a, b);
        },
        (Err(m), Err(n)) => {
            lemma_first_unknown_unique::<K, T>(entries, m, n);
        },
        _ => {},
    }
}

/// Reads a table that has an entry for every variant of `T::Indexer`.
pub fn enum_array<T: Indexer + Copy + Default>(entries: &Vec<(String, T)>) -> (r: Result<
    Vec<T>,
    ArrayError,
>)
    requires
        all_names_known::<T::Indexer, T>(entries@) ==> forall|v: T::Indexer|
            #[trigger] last_entry_named(entries@, v.spec_name()) is Some,
    ensures
        is_table_outcome::<T::Indexer, T>(entries@, outcome_of(r)),
{
    enum_array_inner(entries, false)
}

/// Reads a table; a variant without an entry gets `T::default()`.
pub fn enum_array_default<T: Indexer + Copy + Default>(entries: &Vec<(String, T)>) -> (r: Result<
    Vec<T>,
    ArrayError,
>)
    ensures
        is_table_outcome::<T::Indexer, T>(entries@, outcome_of(r)),
{
    enum_array_inner(entries, true)
}

} // verus!
