use balatro_bot::cards::CardValue;
use balatro_bot::fields::{amt, none_on_error, Amount};
use balatro_bot::state::{from_str, GameState, InvalidValue, WaitingFor};

#[test]
fn game_state_codes_count_from_one() {
    let phases = [
        GameState::SelectingHand,
        GameState::HandPlayed,
        GameState::DrawToHand,
        GameState::GameOver,
        GameState::Shop,
        GameState::PlayTarot,
        GameState::BlindSelect,
        GameState::RoundEval,
        GameState::TarotPack,
        GameState::PlanetPack,
        GameState::Menu,
        GameState::Tutorial,
        GameState::Splash,
        GameState::Sandbox,
        GameState::SpectralPack,
        GameState::DemoCta,
        GameState::StandardPack,
        GameState::BuffoonPack,
        GameState::NewRound,
    ];
    for (i, phase) in phases.iter().enumerate() {
        assert_eq!(GameState::from_repr(i as u8 + 1), Some(*phase));
        assert_eq!(phase.code(), i as u8 + 1);
        assert_eq!(GameState::from_repr(phase.code()), Some(*phase));
    }
    assert_eq!(GameState::Shop.code(), 5);
    assert_eq!(GameState::SelectingHand.code(), 1);
    assert_eq!(GameState::from_repr(5), Some(GameState::Shop));
    assert_eq!(GameState::from_repr(19), Some(GameState::NewRound));
}

#[test]
fn game_state_rejects_codes_outside_range() {
    assert_eq!(GameState::from_repr(0), None);
    assert_eq!(GameState::from_repr(20), None);
    assert_eq!(GameState::from_repr(255), None);
}

#[test]
fn waiting_for_reads_snake_case() {
    let requests = [
        (WaitingFor::StartRun, "start_run"),
        (WaitingFor::SkipOrSelectBlind, "skip_or_select_blind"),
        (WaitingFor::SelectCardsFromHand, "select_cards_from_hand"),
        (WaitingFor::SelectShopAction, "select_shop_action"),
        (WaitingFor::SelectBoosterAction, "select_booster_action"),
        (WaitingFor::SellJokers, "sell_jokers"),
        (WaitingFor::RearrangeJokers, "rearrange_jokers"),
        (WaitingFor::UseOrSellConsumables, "use_or_sell_consumables"),
        (WaitingFor::RearrangeConsumables, "rearrange_consumables"),
        (WaitingFor::RearrangeHand, "rearrange_hand"),
    ];
    for (request, name) in requests.iter() {
        assert_eq!(WaitingFor::from_name(name), Some(*request));
    }
    assert_eq!(WaitingFor::from_name("StartRun"), None);
    assert_eq!(WaitingFor::from_name("start-run"), None);
    assert_eq!(WaitingFor::from_name(""), None);
}

#[test]
fn from_str_reads_every_rank() {
    assert_eq!(from_str("Ace"), Ok(CardValue::Ace));
    assert_eq!(from_str("2"), Ok(CardValue::Two));
    assert_eq!(from_str("3"), Ok(CardValue::Three));
    assert_eq!(from_str("4"), Ok(CardValue::Four));
    assert_eq!(from_str("5"), Ok(CardValue::Five));
    assert_eq!(from_str("6"), Ok(CardValue::Six));
    assert_eq!(from_str("7"), Ok(CardValue::Seven));
    assert_eq!(from_str("8"), Ok(CardValue::Eight));
    assert_eq!(from_str("9"), Ok(CardValue::Nine));
    assert_eq!(from_str("10"), Ok(CardValue::Ten));
    assert_eq!(from_str("Jack"), Ok(CardValue::Jack));
    assert_eq!(from_str("Queen"), Ok(CardValue::Queen));
    assert_eq!(from_str("King"), Ok(CardValue::King));
}

#[test]
fn from_str_rejects_other_text() {
    let err = from_str("Joker").unwrap_err();
    assert_eq!(err, InvalidValue { text: "Joker".to_string() });
    assert_eq!(err.message(), "Invalid value: Joker");
    assert_eq!(from_str("ace").unwrap_err().message(), "Invalid value: ace");
    assert_eq!(from_str("").unwrap_err().message(), "Invalid value: ");
    assert!(from_str("1").is_err());
}

#[test]
fn amt_unwraps_the_table() {
    assert_eq!(amt(Amount { amt: 42u16 }), 42);
    assert_eq!(amt(Amount { amt: 7_000_000_000u64 }), 7_000_000_000);
}

#[test]
fn none_on_error_keeps_only_read_values() {
    let read: Result<u64, String> = Ok(12);
    assert_eq!(none_on_error(read), Some(12));
    let failed: Result<u64, String> = Err("missing".to_string());
    assert_eq!(none_on_error(failed), None);
}
