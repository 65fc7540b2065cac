//! `minipot bot`: Mineflayer bots (announced, not yet implemented).

use vstd::prelude::*;
use vstd::string::StringExecFns;

verus! {

pub enum BotAction {
    Spawn { name: String },
    List,
    Stop { name: String },
}

/// What `minipot bot` reports for an action.
pub fn bot_message(action: &BotAction) -> (r: String)
    ensures
        r@ == match action {
            BotAction::Spawn { name } => "Spawning bot '"@ + name@ + "'... [not yet implemented]"@,
            BotAction::List => "Active bots: [not yet implemented]"@,
            BotAction::Stop { name } => "Stopping bot '"@ + name@ + "'... [not yet implemented]"@,
        },
{
    match action {
        BotAction::Spawn { name } => {
            let mut r = String::from_str("Spawning bot '");
            r.append(name.as_str());
            r.append("'... [not yet implemented]");
            r
        },
        BotAction::List => String::from_str("Active bots: [not yet implemented]"),
        BotAction::Stop { name } => {
            let mut r = String::from_str("Stopping bot '");
            r.append(name.as_str());
            r.append("'... [not yet implemented]");
            r
        },
    }
}

} // verus!
