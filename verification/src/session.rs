//! The model catalog of the interactive session and the decisions its loop
//! makes: which model a menu selection picks, and what to do with a
//! submitted turn.

use crate::text::{trim, trim_spec};
use vstd::prelude::*;

verus! {

/// One selectable chat model: a display name, the identifier sent to the
/// completion endpoint, and a short description for the menu.
pub struct AIModel {
    pub name: String,
    pub model_id: String,
    pub description: String,
}

impl Clone for AIModel {
    fn clone(&self) -> (r: Self)
        ensures
            r == *self,
    {
        AIModel {
            name: self.name.clone(),
            model_id: self.model_id.clone(),
            description: self.description.clone(),
        }
    }
}

/// The fixed catalog offered by the model menu.
pub fn get_available_models() -> (models: Vec<AIModel>)
    ensures
        models@.len() == 3,
        models@[0].name@ == "GPT-4"@,
        models@[0].model_id@ == "gpt-4"@,
        models@[0].description@ == "Advanced model with strong reasoning capabilities"@,
        models@[1].name@ == "GPT-3.5 Turbo"@,
        models@[1].model_id@ == "gpt-3.5-turbo"@,
        models@[1].description@ == "Fast and efficient for most tasks"@,
        models@[2].name@ == "GPT-4o"@,
        models@[2].model_id@ == "gpt-4o"@,
        models@[2].description@ == "Latest model with improved capabilities"@,
{
    let mut models: Vec<AIModel> = Vec::new();
    models.push(AIModel {
        name: String::from_str("GPT-4"),
        model_id: String::from_str("gpt-4"),
        description: String::from_str("Advanced model with strong reasoning capabilities"),
    });
    models.push(AIModel {
        name: String::from_str("GPT-3.5 Turbo"),
        model_id: String::from_str("gpt-3.5-turbo"),
        description: String::from_str("Fast and efficient for most tasks"),
    });
    models.push(AIModel {
        name: String::from_str("GPT-4o"),
        model_id: String::from_str("gpt-4o"),
        description: String::from_str("Latest model with improved capabilities"),
    });
    models
}

/// Resolves a menu selection: a number `n` with `1 <= n <= models.len()`
/// picks the `n`-th model of the catalog; anything else cancels the menu.
pub fn select_model(models: &Vec<AIModel>, selection: Option<usize>) -> (r: Option<AIModel>)
    ensures
        match selection {
            Some(n) => {
                if 1 <= n <= models@.len() {
                    r == Some(models@[n - 1])
                } else {
                    r is None
                }
            },
            None => r is None,
        },
{
    match selection {
        Some(n) => {
            if n >= 1 && n <= models.len() {
                Some(models[n - 1].clone())
            } else {
                None
            }
        },
        None => None,
    }
}

/// What the session does with one submitted turn.
#[derive(Clone, Copy, PartialEq, Eq, Structural, Debug)]
pub enum TurnAction {
    /// The submission was empty: return to prompting without contacting the
    /// model.
    Skip,
    /// Send the submission as the user's prompt.
    Ask,
}

/// Decides what to do with one submitted turn: empty input is skipped,
/// anything else is asked.
pub fn turn_action(input: &str) -> (r: TurnAction)
    ensures
        r == (if input@.len() == 0 {
            TurnAction::Skip
        } else {
            TurnAction::Ask
        }),
{
    if input.is_empty() {
        TurnAction::Skip
    } else {
        TurnAction::Ask
    }
}

/// Whether an answer to the execution prompt confirms it: only `y`, in
/// either case and ignoring surrounding whitespace, does. Anything else
/// declines, and the block is skipped.
pub fn should_execute(answer: &str) -> (r: bool)
    ensures
        r == (trim_spec(answer@) == seq!['y'] || trim_spec(answer@) == seq!['Y']),
{
    let t = trim(answer);
    if t.unicode_len() == 1 {
        let c = t.get_char(0);
        proof {
            if c == 'y' {
                assert(t@ =~= seq!['y']);
            }
            if c == 'Y' {
                assert(t@ =~= seq!['Y']);
            }
        }
        c == 'y' || c == 'Y'
    } else {
        false
    }
}

} // verus!
