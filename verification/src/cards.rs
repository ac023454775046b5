use vstd::prelude::*;

use crate::text::same_text;

verus! {

/// A fieldless enum whose variants are numbered `0, 1, ...` in declaration
/// order (the number `as_index` gives) and written in the game state by a
/// fixed name each.
pub trait AsIndex: Sized {
    /// The name under which the variant appears in the game state.
    spec fn spec_name(self) -> Seq<char>;

    /// The position of the variant in declaration order.
    spec fn spec_index(self) -> nat;

    /// How many variants the enum has.
    spec fn spec_count() -> nat;

    /// The variant at position `i`, for `i < spec_count()`.
    spec fn spec_variant(i: nat) -> Self;

    /// The variant's position in declaration order.
    fn as_index(&self) -> (r: u8)
        ensures
            r as nat == self.spec_index(),
    ;

    /// How many variants the enum has.
    fn variant_count() -> (n: u8)
        ensures
            n as nat == Self::spec_count(),
    ;

    /// The variant that `name` names, if any.
    fn from_name(name: &str) -> (r: Option<Self>)
        ensures
            r matches Some(v) ==> v.spec_name() == name@,
            r is None ==> forall|v: Self| #[trigger] v.spec_name() != name@,
    ;

    /// Positions number the variants one to one, below the count, and no two
    /// variants share a name.
    proof fn lemma_index_bijection(v: Self, w: Self)
        ensures
            v.spec_index() < Self::spec_count(),
            Self::spec_variant(v.spec_index()) == v,
            v.spec_index() == w.spec_index() ==> v == w,
            v.spec_name() == w.spec_name() ==> v == w,
    ;

    /// Every position below the count belongs to a variant.
    proof fn lemma_variant_index(i: nat)
        requires
            i < Self::spec_count(),
        ensures
            Self::spec_variant(i).spec_index() == i,
    ;
}

/// The suit of a playing card.
#[derive(Debug, Clone, Copy, PartialEq, Eq, Hash)]
pub enum CardSuit {
    Diamonds,
    Spades,
    Clubs,
    Hearts,
}

impl AsIndex for CardSuit {
    open spec fn spec_name(self) -> Seq<char> {
        match self {
            CardSuit::Diamonds => "Diamonds"@,
            CardSuit::Spades => "Spades"@,
            CardSuit::Clubs => "Clubs"@,
            CardSuit::Hearts => "Hearts"@,
        }
    }

    open spec fn spec_index(self) -> nat {
        match self {
            CardSuit::Diamonds => 0,
            CardSuit::Spades => 1,
            CardSuit::Clubs => 2,
            CardSuit::Hearts => 3,
        }
    }

    open spec fn spec_count() -> nat {
        4
    }

    open spec fn spec_variant(i: nat) -> Self {
        if i == 0 {
            CardSuit::Diamonds
        } else if i == 1 {
            CardSuit::Spades
        } else if i == 2 {
            CardSuit::Clubs
        } else {
            CardSuit::Hearts
        }
    }

    fn as_index(&self) -> (r: u8) {
        match self {
            CardSuit::Diamonds => 0,
            CardSuit::Spades => 1,
            CardSuit::Clubs => 2,
            CardSuit::Hearts => 3,
        }
    }

    fn variant_count() -> (n: u8) {
        4
    }

    fn from_name(name: &str) -> (r: Option<Self>) {
        if same_text(name, "Diamonds") {
            Some(CardSuit::Diamonds)
        } else if same_text(name, "Spades") {
            Some(CardSuit::Spades)
        } else if same_text(name, "Clubs") {
            Some(CardSuit::Clubs)
        } else if same_text(name, "Hearts") {
            Some(CardSuit::Hearts)
        } else {
            None
        }
    }

    proof fn lemma_index_bijection(v: Self, w: Self) {
        reveal_strlit("Diamonds");
        reveal_strlit("Spades");
        reveal_strlit("Clubs");
        reveal_strlit("Hearts");
        if v.spec_name() == w.spec_name() {
            assert(v.spec_name().len() == w.spec_name().len());
            assert(v.spec_name()[0] == w.spec_name()[0]);
            assert(v.spec_name()[1] == w.spec_name()[1]);
        }
    }

    proof fn lemma_variant_index(i: nat) {
    }
}

/// The rank of a playing card; number ranks are written as their digits.
#[derive(Debug, Clone, Copy, PartialEq, Eq, Hash)]
pub enum CardValue {
    Ace,
    Two,
    Three,
    Four,
    Five,
    Six,
    Seven,
    Eight,
    Nine,
    Ten,
    Jack,
    Queen,
    King,
}

impl AsIndex for CardValue {
    open spec fn spec_name(self) -> Seq<char> {
        match self {
            CardValue::Ace => "Ace"@,
            CardValue::Two => "2"@,
            CardValue::Three => "3"@,
            CardValue::Four => "4"@,
            CardValue::Five => "5"@,
            CardValue::Six => "6"@,
            CardValue::Seven => "7"@,
            CardValue::Eight => "8"@,
            CardValue::Nine => "9"@,
            CardValue::Ten => "10"@,
            CardValue::Jack => "Jack"@,
            CardValue::Queen => "Queen"@,
            CardValue::King => "King"@,
        }
    }

    open spec fn spec_index(self) -> nat {
        match self {
            CardValue::Ace => 0,
            CardValue::Two => 1,
            CardValue::Three => 2,
            CardValue::Four => 3,
            CardValue::Five => 4,
            CardValue::Six => 5,
            CardValue::Seven => 6,
            CardValue::Eight => 7,
            CardValue::Nine => 8,
            CardValue::Ten => 9,
            CardValue::Jack => 10,
            CardValue::Queen => 11,
            CardValue::King => 12,
        }
    }

    open spec fn spec_count() -> nat {
        13
    }

    open spec fn spec_variant(i: nat) -> Self {
        if i == 0 {
            CardValue::Ace
        } else if i == 1 {
            CardValue::Two
        } else if i == 2 {
            CardValue::Three
        } else if i == 3 {
            CardValue::Four
        } else if i == 4 {
            CardValue::Five
        } else if i == 5 {
            CardValue::Six
        } else if i == 6 {
            CardValue::Seven
        } else if i == 7 {
            CardValue::Eight
        } else if i == 8 {
            CardValue::Nine
        } else if i == 9 {
            CardValue::Ten
        } else if i == 10 {
            CardValue::Jack
        } else if i == 11 {
            CardValue::Queen
        } else {
            CardValue::King
        }
    }

    fn as_index(&self) -> (r: u8) {
        match self {
            CardValue::Ace => 0,
            CardValue::Two => 1,
            CardValue::Three => 2,
            CardValue::Four => 3,
            CardValue::Five => 4,
            CardValue::Six => 5,
            CardValue::Seven => 6,
            CardValue::Eight => 7,
            CardValue::Nine => 8,
            CardValue::Ten => 9,
            CardValue::Jack => 10,
            CardValue::Queen => 11,
            CardValue::King => 12,
        }
    }

    fn variant_count() -> (n: u8) {
        13
    }

    fn from_name(name: &str) -> (r: Option<Self>) {
        if same_text(name, "Ace") {
            Some(CardValue::Ace)
        } else if same_text(name, "2") {
            Some(CardValue::Two)
        } else if same_text(name, "3") {
            Some(CardValue::Three)
        } else if same_text(name, "4") {
            Some(CardValue::Four)
        } else if same_text(name, "5") {
            Some(CardValue::Five)
        } else if same_text(name, "6") {
            Some(CardValue::Six)
        } else if same_text(name, "7") {
            Some(CardValue::Seven)
        } else if same_text(name, "8") {
            Some(CardValue::Eight)
        } else if same_text(name, "9") {
            Some(CardValue::Nine)
        } else if same_text(name, "10") {
            Some(CardValue::Ten)
        } else if same_text(name, "Jack") {
            Some(CardValue::Jack)
        } else if same_text(name, "Queen") {
            Some(CardValue::Queen)
        } else if same_text(name, "King") {
            Some(CardValue::King)
        } else {
            None
        }
    }

    proof fn lemma_index_bijection(v: Self, w: Self) {
        reveal_strlit("Ace");
        reveal_strlit("2");
        reveal_strlit("3");
        reveal_strlit("4");
        reveal_strlit("5");
        reveal_strlit("6");
        reveal_strlit("7");
        reveal_strlit("8");
        reveal_strlit("9");
        reveal_strlit("10");
        reveal_strlit("Jack");
        reveal_strlit("Queen");
        reveal_strlit("King");
        if v.spec_name() == w.spec_name() {
            assert(v.spec_name().len() == w.spec_name().len());
            assert(v.spec_name()[0] == w.spec_name()[0]);
            assert(v.spec_name()[1] == w.spec_name()[1]);
        }
    }

    proof fn lemma_variant_index(i: nat) {
    }
}

/// A poker hand as the game ranks it. The game's own hand table has no royal
/// flush, so neither does this enum.
#[derive(Debug, Clone, Copy, PartialEq, Eq, Hash)]
pub enum Hand {
    HighCard,
    Pair,
    TwoPair,
    ThreeOfAKind,
    Straight,
    Flush,
    FullHouse,
    FourOfAKind,
    StraightFlush,
    FiveOfAKind,
    FlushHouse,
    FlushFive,
}

impl AsIndex for Hand {
    open spec fn spec_name(self) -> Seq<char> {
        match self {
            Hand::HighCard => "High Card"@,
            Hand::Pair => "Pair"@,
            Hand::TwoPair => "Two Pair"@,
            Hand::ThreeOfAKind => "Three of a Kind"@,
            Hand::Straight => "Straight"@,
            Hand::Flush => "Flush"@,
            Hand::FullHouse => "Full House"@,
            Hand::FourOfAKind => "Four of a Kind"@,
            Hand::StraightFlush => "Straight Flush"@,
            Hand::FiveOfAKind => "Five of a Kind"@,
            Hand::FlushHouse => "Flush House"@,
            Hand::FlushFive => "Flush Five"@,
        }
    }

    open spec fn spec_index(self) -> nat {
        match self {
            Hand::HighCard => 0,
            Hand::Pair => 1,
            Hand::TwoPair => 2,
            Hand::ThreeOfAKind => 3,
            Hand::Straight => 4,
            Hand::Flush => 5,
            Hand::FullHouse => 6,
            Hand::FourOfAKind => 7,
            Hand::StraightFlush => 8,
            Hand::FiveOfAKind => 9,
            Hand::FlushHouse => 10,
            Hand::FlushFive => 11,
        }
    }

    open spec fn spec_count() -> nat {
        12
    }

    open spec fn spec_variant(i: nat) -> Self {
        if i == 0 {
            Hand::HighCard
        } else if i == 1 {
            Hand::Pair
        } else if i == 2 {
            Hand::TwoPair
        } else if i == 3 {
            Hand::ThreeOfAKind
        } else if i == 4 {
            Hand::Straight
        } else if i == 5 {
            Hand::Flush
        } else if i == 6 {
            Hand::FullHouse
        } else if i == 7 {
            Hand::FourOfAKind
        } else if i == 8 {
            Hand::StraightFlush
        } else if i == 9 {
            Hand::FiveOfAKind
        } else if i == 10 {
            Hand::FlushHouse
        } else {
            Hand::FlushFive
        }
    }

    fn as_index(&self) -> (r: u8) {
        match self {
            Hand::HighCard => 0,
            Hand::Pair => 1,
            Hand::TwoPair => 2,
            Hand::ThreeOfAKind => 3,
            Hand::Straight => 4,
            Hand::Flush => 5,
            Hand::FullHouse => 6,
            Hand::FourOfAKind => 7,
            Hand::StraightFlush => 8,
            Hand::FiveOfAKind => 9,
            Hand::FlushHouse => 10,
            Hand::FlushFive => 11,
        }
    }

    fn variant_count() -> (n: u8) {
        12
    }

    fn from_name(name: &str) -> (r: Option<Self>) {
        if same_text(name, "High Card") {
            Some(Hand::HighCard)
        } else if same_text(name, "Pair") {
            Some(Hand::Pair)
        } else if same_text(name, "Two Pair") {
            Some(Hand::TwoPair)
        } else if same_text(name, "Three of a Kind") {
            Some(Hand::ThreeOfAKind)
        } else if same_text(name, "Straight") {
            Some(Hand::Straight)
        } else if same_text(name, "Flush") {
            Some(Hand::Flush)
        } else if same_text(name, "Full House") {
            Some(Hand::FullHouse)
        } else if same_text(name, "Four of a Kind") {
            Some(Hand::FourOfAKind)
        } else if same_text(name, "Straight Flush") {
            Some(Hand::StraightFlush)
        } else if same_text(name, "Five of a Kind") {
            Some(Hand::FiveOfAKind)
        } else if same_text(name, "Flush House") {
            Some(Hand::FlushHouse)
        } else if same_text(name, "Flush Five") {
            Some(Hand::FlushFive)
        } else {
            None
        }
    }

    proof fn lemma_index_bijection(v: Self, w: Self) {
        reveal_strlit("High Card");
        reveal_strlit("Pair");
        reveal_strlit("Two Pair");
        reveal_strlit("Three of a Kind");
        reveal_strlit("Straight");
        reveal_strlit("Flush");
        reveal_strlit("Full House");
        reveal_strlit("Four of a Kind");
        reveal_strlit("Straight Flush");
        reveal_strlit("Five of a Kind");
        reveal_strlit("Flush House");
        reveal_strlit("Flush Five");
        if v.spec_name() == w.spec_name() {
            assert(v.spec_name().len() == w.spec_name().len());
            assert(v.spec_name()[0] == w.spec_name()[0]);
            assert(v.spec_name()[1] == w.spec_name()[1]);
        }
    }

    proof fn lemma_variant_index(i: nat) {
    }
}

} // verus!
