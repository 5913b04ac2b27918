//! User-facing text bundles.  The engine itself prints nothing; a shell
//! fills one of these per language and reads from it.

use vstd::prelude::*;

verus! {

/// All texts the surrounding shell shows, one field per message.
#[derive(Clone, Copy, Debug)]
pub struct LocalizedTexts {
    pub language_selection_title: &'static str,
    pub language_english: &'static str,
    pub language_chinese: &'static str,
    pub score_format: &'static str,
    pub ai_difficulty_format: &'static str,
    pub game_in_progress: &'static str,
    pub click_to_restart: &'static str,
    pub your_turn: &'static str,
    pub ai_turn: &'static str,
    pub difficulty_easy: &'static str,
    pub difficulty_medium: &'static str,
    pub difficulty_hard: &'static str,
    pub difficulty_expert: &'static str,
    pub black_wins: &'static str,
    pub white_wins: &'static str,
    pub draw: &'static str,
    pub pass_turn: &'static str,
    pub rules_title: &'static str,
    pub rules_close: &'static str,
    pub rules_content: &'static str,
    pub ai_difficulty_changed: &'static str,
    pub game_over_detected: &'static str,
    pub restarting_game: &'static str,
    pub executing_game_restart: &'static str,
    pub loading_text: &'static str,
    pub select_difficulty: &'static str,
    pub back_to_difficulty: &'static str,
}

} // verus!
