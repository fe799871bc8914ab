//! Getting and setting stored configuration.
use vstd::prelude::*;

use crate::cli::{ConfigAction, ConfigArgs};
use crate::config::{stored_key, Config, CurseforgeConfig};
use crate::text::same;

verus! {

/// The one key that can be stored.
pub const CURSEFORGE_KEY: &'static str = "curseforge.key";

/// What a `config` command comes to.
#[derive(Debug)]
pub enum ConfigResult {
    /// This configuration is to be stored.
    Store(Config),
    /// The value of the key, where it is set.
    Value(Option<String>),
}

/// The key is not known.
#[derive(Debug)]
pub struct UnknownKey {
    pub key: String,
}

/// What is asked of the configuration.
pub enum ActionView {
    Store(Seq<char>, Seq<char>),
    Get(Seq<char>),
}

impl View for ConfigAction {
    type V = ActionView;

    open spec fn view(&self) -> ActionView {
        match self {
            ConfigAction::Store { key, value } => ActionView::Store(key@, value@),
            ConfigAction::Get { key } => ActionView::Get(key@),
        }
    }
}

/// What comes of it: the CurseForge key to store, a value, or an unknown key.
pub enum AnswerView {
    Store(Option<Seq<char>>),
    Value(Option<Seq<char>>),
    Unknown(Seq<char>),
}

/// What an action comes to while `stored` is the CurseForge key.
pub open spec fn answer_to(action: ActionView, stored: Option<Seq<char>>) -> AnswerView {
    match action {
        ActionView::Store(key, value) => if key == CURSEFORGE_KEY@ {
            AnswerView::Store(Some(value))
        } else {
            AnswerView::Unknown(key)
        },
        ActionView::Get(key) => if key == CURSEFORGE_KEY@ {
            AnswerView::Value(stored)
        } else {
            AnswerView::Unknown(key)
        },
    }
}

/// The answer that a result is.
pub open spec fn answer_in(r: Result<ConfigResult, UnknownKey>) -> AnswerView {
    match r {
        Ok(ConfigResult::Store(config)) => AnswerView::Store(stored_key(config)),
        Ok(ConfigResult::Value(value)) => AnswerView::Value(value.deep_view()),
        Err(unknown) => AnswerView::Unknown(unknown.key@),
    }
}

/// Store a value, or look one up.
pub fn run(args: ConfigArgs, config: Config) -> (r: Result<ConfigResult, UnknownKey>)
    ensures
        answer_in(r) == answer_to(args.action@, stored_key(config)),
{
    match args.action {
        ConfigAction::Store { key, value } => {
            if !same(key.as_str(), CURSEFORGE_KEY) {
                return Err(UnknownKey { key });
            }
            Ok(
                ConfigResult::Store(
                    Config { curseforge: Some(CurseforgeConfig { key: Some(value) }) },
                ),
            )
        },
        ConfigAction::Get { key } => {
            if !same(key.as_str(), CURSEFORGE_KEY) {
                return Err(UnknownKey { key });
            }
            Ok(
                ConfigResult::Value(
                    match config.curseforge {
                        Some(cf) => cf.key,
                        None => None,
                    },
                ),
            )
        },
    }
}

/// What was set is what a later look-up of the same key finds, whatever was set before.
pub proof fn a_set_value_is_found_again(
    key: Seq<char>,
    value: Seq<char>,
    before: Option<Seq<char>>,
    now: Option<Seq<char>>,
)
    requires
        answer_to(ActionView::Store(key, value), before) == AnswerView::Store(now),
    ensures
        answer_to(ActionView::Get(key), now) == AnswerView::Value(Some(value)),
{
}

/// Only the key for CurseForge is known: any other is refused by its name, and nothing is stored.
pub proof fn other_keys_are_refused(key: Seq<char>, value: Seq<char>, stored: Option<Seq<char>>)
    ensures
        key != "curseforge.key"@ ==> answer_to(ActionView::Store(key, value), stored)
            == AnswerView::Unknown(key) && answer_to(ActionView::Get(key), stored)
            == AnswerView::Unknown(key),
        answer_to(ActionView::Store("curseforge.key"@, value), stored) == AnswerView::Store(
            Some(value),
        ),
        answer_to(ActionView::Get("curseforge.key"@), stored) == AnswerView::Value(stored),
{
}

} // verus!
