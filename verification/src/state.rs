use vstd::prelude::*;

use crate::cards::{AsIndex, CardValue};
use crate::text::same_text;

verus! {

/// The phase the game is in. On the wire it is the number `spec_code`, which
/// counts the phases from 1 in this order.
#[derive(Debug, Clone, Copy, PartialEq, Eq, Hash)]
pub enum GameState {
    SelectingHand,
    HandPlayed,
    DrawToHand,
    GameOver,
    Shop,
    PlayTarot,
    BlindSelect,
    RoundEval,
    TarotPack,
    PlanetPack,
    Menu,
    Tutorial,
    Splash,
    Sandbox,
    SpectralPack,
    DemoCta,
    StandardPack,
    BuffoonPack,
    NewRound,
}

impl GameState {
    /// The number that stands for the phase on the wire.
    pub open spec fn spec_code(self) -> u8 {
        match self {
            GameState::SelectingHand => 1,
            GameState::HandPlayed => 2,
            GameState::DrawToHand => 3,
            GameState::GameOver => 4,
            GameState::Shop => 5,
            GameState::PlayTarot => 6,
            GameState::BlindSelect => 7,
            GameState::RoundEval => 8,
            GameState::TarotPack => 9,
            GameState::PlanetPack => 10,
            GameState::Menu => 11,
            GameState::Tutorial => 12,
            GameState::Splash => 13,
            GameState::Sandbox => 14,
            GameState::SpectralPack => 15,
            GameState::DemoCta => 16,
            GameState::StandardPack => 17,
            GameState::BuffoonPack => 18,
            GameState::NewRound => 19,
        }
    }

    /// The number that stands for the phase on the wire.
    pub fn code(&self) -> (r: u8)
        ensures
            r == self.spec_code(),
    {
        match self {
            GameState::SelectingHand => 1,
            GameState::HandPlayed => 2,
            GameState::DrawToHand => 3,
            GameState::GameOver => 4,
            GameState::Shop => 5,
            GameState::PlayTarot => 6,
            GameState::BlindSelect => 7,
            GameState::RoundEval => 8,
            GameState::TarotPack => 9,
            GameState::PlanetPack => 10,
            GameState::Menu => 11,
            GameState::Tutorial => 12,
            GameState::Splash => 13,
            GameState::Sandbox => 14,
            GameState::SpectralPack => 15,
            GameState::DemoCta => 16,
            GameState::StandardPack => 17,
            GameState::BuffoonPack => 18,
            GameState::NewRound => 19,
        }
    }

    /// The phase that `code` stands for, if any: the one whose code it is.
    pub open spec fn spec_from_repr(code: u8) -> Option<GameState> {
        if exists|s: GameState| #[trigger] s.spec_code() == code {
            Some(choose|s: GameState| #[trigger] s.spec_code() == code)
        } else {
            None
        }
    }

    /// The phase that `code` stands for, if any.
    pub fn from_repr(code: u8) -> (r: Option<GameState>)
        ensures
            r == GameState::spec_from_repr(code),
            r is None <==> !(1 <= code <= 19),
    {
        proof {
            lemma_game_state_codes(code);
            assert forall|s: GameState|
                GameState::spec_from_repr(#[trigger] s.spec_code()) == Some(s) by {
                lemma_game_state_roundtrip(s);
            }
        }
        match code {
            1 => Some(GameState::SelectingHand),
            2 => Some(GameState::HandPlayed),
            3 => Some(GameState::DrawToHand),
            4 => Some(GameState::GameOver),
            5 => Some(GameState::Shop),
            6 => Some(GameState::PlayTarot),
            7 => Some(GameState::BlindSelect),
            8 => Some(GameState::RoundEval),
            9 => Some(GameState::TarotPack),
            10 => Some(GameState::PlanetPack),
            11 => Some(GameState::Menu),
            12 => Some(GameState::Tutorial),
            13 => Some(GameState::Splash),
            14 => Some(GameState::Sandbox),
            15 => Some(GameState::SpectralPack),
            16 => Some(GameState::DemoCta),
            17 => Some(GameState::StandardPack),
            18 => Some(GameState::BuffoonPack),
            19 => Some(GameState::NewRound),
            _ => None,
        }
    }
}

/// Every phase has a code in `1..=19`, no two phases share one, and every
/// code in `1..=19` belongs to a phase.
pub proof fn lemma_game_state_codes(code: u8)
    ensures
        forall|s: GameState| 1 <= #[trigger] s.spec_code() <= 19,
        forall|s: GameState, t: GameState| #[trigger] s.spec_code() == #[trigger] t.spec_code() ==> s == t,
        (1 <= code <= 19) <==> exists|s: GameState| #[trigger] s.spec_code() == code,
{
    if 1 <= code <= 19 {
        if code == 1 {
            assert(GameState::SelectingHand.spec_code() == code);
        } else if code == 2 {
            assert(GameState::HandPlayed.spec_code() == code);
        } else if code == 3 {
            assert(GameState::DrawToHand.spec_code() == code);
        } else if code == 4 {
            assert(GameState::GameOver.spec_code() == code);
        } else if code == 5 {
            assert(GameState::Shop.spec_code() == code);
        } else if code == 6 {
            assert(GameState::PlayTarot.spec_code() == code);
        } else if code == 7 {
            assert(GameState::BlindSelect.spec_code() == code);
        } else if code == 8 {
            assert(GameState::RoundEval.spec_code() == code);
        } else if code == 9 {
            assert(GameState::TarotPack.spec_code() == code);
        } else if code == 10 {
            assert(GameState::PlanetPack.spec_code() == code);
        } else if code == 11 {
            assert(GameState::Menu.spec_code() == code);
        } else if code == 12 {
            assert(GameState::Tutorial.spec_code() == code);
        } else if code == 13 {
            assert(GameState::Splash.spec_code() == code);
        } else if code == 14 {
            assert(GameState::Sandbox.spec_code() == code);
        } else if code == 15 {
            assert(GameState::SpectralPack.spec_code() == code);
        } else if code == 16 {
            assert(GameState::DemoCta.spec_code() == code);
        } else if code == 17 {
            assert(GameState::StandardPack.spec_code() == code);
        } else if code == 18 {
            assert(GameState::BuffoonPack.spec_code() == code);
        } else if code == 19 {
            assert(GameState::NewRound.spec_code() == code);
        }
    }
}

/// Reading the code of a phase gives the phase back.
pub proof fn lemma_game_state_roundtrip(s: GameState)
    ensures
        GameState::spec_from_repr(s.spec_code()) == Some(s),
{
    lemma_game_state_codes(s.spec_code());
}

/// What the game waits for the player to do; written in snake case on the wire.
#[derive(Debug, Clone, Copy, PartialEq, Eq, Hash)]
pub enum WaitingFor {
    StartRun,
    SkipOrSelectBlind,
    SelectCardsFromHand,
    SelectShopAction,
    SelectBoosterAction,
    SellJokers,
    RearrangeJokers,
    UseOrSellConsumables,
    RearrangeConsumables,
    RearrangeHand,
}

impl WaitingFor {
    /// The name under which the request appears on the wire.
    pub open spec fn spec_name(self) -> Seq<char> {
        match self {
            WaitingFor::StartRun => "start_run"@,
            WaitingFor::SkipOrSelectBlind => "skip_or_select_blind"@,
            WaitingFor::SelectCardsFromHand => "select_cards_from_hand"@,
            WaitingFor::SelectShopAction => "select_shop_action"@,
            WaitingFor::SelectBoosterAction => "select_booster_action"@,
            WaitingFor::SellJokers => "sell_jokers"@,
            WaitingFor::RearrangeJokers => "rearrange_jokers"@,
            WaitingFor::UseOrSellConsumables => "use_or_sell_consumables"@,
            WaitingFor::RearrangeConsumables => "rearrange_consumables"@,
            WaitingFor::RearrangeHand => "rearrange_hand"@,
        }
    }

    /// The request that `name` names, if any.
    pub fn from_name(name: &str) -> (r: Option<WaitingFor>)
        ensures
            r matches Some(w) ==> w.spec_name() == name@,
            r is None ==> forall|w: WaitingFor| #[trigger] w.spec_name() != name@,
    {
        if same_text(name, "start_run") {
            Some(WaitingFor::StartRun)
        } else if same_text(name, "skip_or_select_blind") {
            Some(WaitingFor::SkipOrSelectBlind)
        } else if same_text(name, "select_cards_from_hand") {
            Some(WaitingFor::SelectCardsFromHand)
        } else if same_text(name, "select_shop_action") {
            Some(WaitingFor::SelectShopAction)
        } else if same_text(name, "select_booster_action") {
            Some(WaitingFor::SelectBoosterAction)
        } else if same_text(name, "sell_jokers") {
            Some(WaitingFor::SellJokers)
        } else if same_text(name, "rearrange_jokers") {
            Some(WaitingFor::RearrangeJokers)
        } else if same_text(name, "use_or_sell_consumables") {
            Some(WaitingFor::UseOrSellConsumables)
        } else if same_text(name, "rearrange_consumables") {
            Some(WaitingFor::RearrangeConsumables)
        } else if same_text(name, "rearrange_hand") {
            Some(WaitingFor::RearrangeHand)
        } else {
            None
        }
    }
}

/// No two requests share a name.
pub proof fn lemma_waiting_for_names(w: WaitingFor, x: WaitingFor)
    ensures
        w.spec_name() == x.spec_name() ==> w == x,
{
    reveal_strlit("start_run");
    reveal_strlit("skip_or_select_blind");
    reveal_strlit("select_cards_from_hand");
    reveal_strlit("select_shop_action");
    reveal_strlit("select_booster_action");
    reveal_strlit("sell_jokers");
    reveal_strlit("rearrange_jokers");
    reveal_strlit("use_or_sell_consumables");
    reveal_strlit("rearrange_consumables");
    reveal_strlit("rearrange_hand");
    if w.spec_name() == x.spec_name() {
        assert(w.spec_name().len() == x.spec_name().len());
        assert(w.spec_name()[0] == x.spec_name()[0]);
    }
}

/// A rank text that names no rank.
#[derive(Debug, PartialEq, Eq)]
pub struct InvalidValue {
    /// The text as it was read.
    pub text: String,
}

impl InvalidValue {
    /// The message that reports the error.
    pub fn message(&self) -> (r: String)
        ensures
            r@ == "Invalid value: "@ + self.text@,
    {
        let mut r = String::from_str("Invalid value: ");
        r.append(self.text.as_str());
        r
    }
}

/// Reads a card rank written as text: `Ace`, `2` to `10`, `Jack`, `Queen` or
/// `King`, the same names the game state uses.
pub fn from_str(s: &str) -> (r: Result<CardValue, InvalidValue>)
    ensures
        r matches Ok(v) ==> v.spec_name() == s@,
        r matches Err(e) ==> e.text@ == s@,
        r is Err <==> forall|v: CardValue| #[trigger] v.spec_name() != s@,
{
    match CardValue::from_name(s) {
        Some(v) => Ok(v),
        None => Err(InvalidValue { text: s.to_owned() }),
    }
}

} // verus!
