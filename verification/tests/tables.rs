use balatro_bot::enum_array::{
    enum_array, enum_array_default, enum_array_inner, ArrayError, CardPlayed, HandData, HandUsage,
    Played,
};

fn entry<T>(name: &str, value: T) -> (String, T) {
    (name.to_string(), value)
}

#[test]
fn default_fills_missing_suits() {
    let entries = vec![entry("Hearts", Played(true)), entry("Spades", Played(true))];
    let table = enum_array_default(&entries).unwrap();
    assert_eq!(table, vec![Played(false), Played(true), Played(false), Played(true)]);
}

#[test]
fn empty_table_is_all_defaults() {
    let entries: Vec<(String, HandUsage)> = Vec::new();
    let table = enum_array_default(&entries).unwrap();
    assert_eq!(table.len(), 12);
    assert!(table.iter().all(|u| *u == HandUsage { count: 0 }));
}

#[test]
fn slots_follow_as_index_not_entry_order() {
    let entries = vec![
        entry("Flush Five", HandUsage { count: 5 }),
        entry("Pair", HandUsage { count: 2 }),
        entry("High Card", HandUsage { count: 1 }),
    ];
    let table = enum_array_default(&entries).unwrap();
    assert_eq!(table[0], HandUsage { count: 1 });
    assert_eq!(table[1], HandUsage { count: 2 });
    assert_eq!(table[11], HandUsage { count: 5 });
    assert_eq!(table[5], HandUsage { count: 0 });
}

#[test]
fn later_entry_for_a_key_wins() {
    let entries = vec![
        entry("Clubs", Played(true)),
        entry("Clubs", Played(false)),
        entry("Diamonds", Played(false)),
        entry("Diamonds", Played(true)),
    ];
    let table = enum_array_default(&entries).unwrap();
    assert_eq!(table, vec![Played(true), Played(false), Played(false), Played(false)]);
}

#[test]
fn unknown_key_is_refused() {
    let entries = vec![entry("Hearts", Played(true)), entry("Stars", Played(true))];
    assert_eq!(
        enum_array_default(&entries),
        Err(ArrayError::UnknownVariant("Stars".to_string()))
    );
}

#[test]
fn first_unknown_key_is_reported() {
    let entries = vec![
        entry("Royal Flush", HandUsage { count: 1 }),
        entry("Pair", HandUsage { count: 1 }),
        entry("Five Flush", HandUsage { count: 1 }),
    ];
    assert_eq!(
        enum_array_default(&entries),
        Err(ArrayError::UnknownVariant("Royal Flush".to_string()))
    );
}

fn full_hand_table() -> Vec<(String, HandData)> {
    let names = [
        "High Card",
        "Pair",
        "Two Pair",
        "Three of a Kind",
        "Straight",
        "Flush",
        "Full House",
        "Four of a Kind",
        "Straight Flush",
        "Five of a Kind",
        "Flush House",
        "Flush Five",
    ];
    // Written in reverse so that the order of the entries differs from the slots'.
    names
        .iter()
        .enumerate()
        .rev()
        .map(|(i, name)| {
            let mut data = HandData::default();
            data.level = i as u64 + 1;
            data.chips = 5 * (i as u64 + 1);
            entry(name, data)
        })
        .collect()
}

#[test]
fn strict_table_with_every_hand() {
    let entries = full_hand_table();
    let table = enum_array(&entries).unwrap();
    assert_eq!(table.len(), 12);
    for (i, data) in table.iter().enumerate() {
        assert_eq!(data.level, i as u64 + 1);
        assert_eq!(data.chips, 5 * (i as u64 + 1));
    }
}

#[test]
fn strict_and_default_agree_when_complete() {
    let entries = full_hand_table();
    assert_eq!(enum_array(&entries), enum_array_default(&entries));
    assert_eq!(enum_array_inner(&entries, false), enum_array_inner(&entries, true));
}

#[test]
fn strict_table_refuses_unknown_key() {
    let mut entries = full_hand_table();
    entries.push(entry("Royal Flush", HandData::default()));
    assert_eq!(
        enum_array(&entries),
        Err(ArrayError::UnknownVariant("Royal Flush".to_string()))
    );
}

#[test]
fn card_ranks_table() {
    let mut hearts_only = CardPlayed::default();
    hearts_only.suits[3] = Played(true);
    hearts_only.total = 2;
    let entries = vec![entry("10", hearts_only), entry("Ace", CardPlayed { total: 1, ..CardPlayed::default() })];
    let table = enum_array_default(&entries).unwrap();
    assert_eq!(table.len(), 13);
    assert_eq!(table[9], hearts_only);
    assert_eq!(table[0].total, 1);
    assert_eq!(table[12], CardPlayed::default());
}

#[test]
fn item_defaults_are_zero() {
    assert_eq!(Played::default(), Played(false));
    assert_eq!(HandUsage::default(), HandUsage { count: 0 });
    let d = HandData::default();
    assert_eq!((d.chips, d.level, d.mult, d.s_chips, d.s_mult), (0, 0, 0, 0, 0));
    let c = CardPlayed::default();
    assert_eq!(c.total, 0);
    assert_eq!(c.suits, [Played(false); 4]);
}

#[test]
fn entry_order_does_not_change_the_table() {
    let forward = full_hand_table();
    let mut backward = full_hand_table();
    backward.reverse();
    assert_eq!(enum_array(&forward), enum_array(&backward));
    let partial = vec![entry("Pair", HandUsage { count: 3 }), entry("Flush", HandUsage { count: 4 })];
    let swapped = vec![entry("Flush", HandUsage { count: 4 }), entry("Pair", HandUsage { count: 3 })];
    assert_eq!(enum_array_default(&partial), enum_array_default(&swapped));
}

#[test]
fn enum_array_is_the_strict_reading() {
    let entries = full_hand_table();
    assert_eq!(enum_array(&entries), enum_array_inner(&entries, false));
    let bad = vec![entry("Joker", HandData::default())];
    assert_eq!(enum_array(&bad), enum_array_inner(&bad, false));
}
