//! The trigger policy: when a message that was not said to the bot may set
//! off a reply. Each category of reply has a pattern to look for, a
//! cooldown, and a chance.

use crate::clock::{whole_seconds_between, Moment};
use crate::dice::{lemma_no_rolls, Dice};
use crate::text::{chars_of, contains_text, has_substring};
use vstd::prelude::*;
use vstd::string::*;

verus! {

/// The categories of unprompted replies, in the order in which they are
/// tried.
#[derive(Clone, Copy, Debug, PartialEq, Eq, Structural)]
pub enum TriggerCategory {
    /// Someone named the protocol by its product name.
    ProtocolIdentity,
    /// A joke, now and then.
    LightHumor,
    /// Rarely, a joke or something made up from what was said.
    AmbientChatter,
}

impl TriggerCategory {
    /// The text that the message must hold for the category to fire; the
    /// empty text where any message will do.
    pub open spec fn pattern(self) -> Seq<char> {
        match self {
            TriggerCategory::ProtocolIdentity => "jabber"@,
            TriggerCategory::LightHumor => Seq::<char>::empty(),
            TriggerCategory::AmbientChatter => Seq::<char>::empty(),
        }
    }

    /// The seconds that must lie between two firings.
    pub open spec fn min_interval(self) -> nat {
        match self {
            TriggerCategory::ProtocolIdentity => 120,
            TriggerCategory::LightHumor => 300,
            TriggerCategory::AmbientChatter => 300,
        }
    }

    /// The chance to fire, in percent.
    pub open spec fn fire_chance(self) -> nat {
        match self {
            TriggerCategory::ProtocolIdentity => 50,
            TriggerCategory::LightHumor => 50,
            TriggerCategory::AmbientChatter => 1,
        }
    }

    /// A short name for the category.
    pub fn name(self) -> (name: &'static str)
        ensures
            self == TriggerCategory::ProtocolIdentity ==> name@ == "protocol-identity"@,
            self == TriggerCategory::LightHumor ==> name@ == "light-humor"@,
            self == TriggerCategory::AmbientChatter ==> name@ == "ambient-chatter"@,
    {
        match self {
            TriggerCategory::ProtocolIdentity => "protocol-identity",
            TriggerCategory::LightHumor => "light-humor",
            TriggerCategory::AmbientChatter => "ambient-chatter",
        }
    }

    pub fn match_substring(self) -> (pattern: &'static str)
        ensures
            pattern@ == self.pattern(),
    {
        proof {
            reveal_strlit("");
        }
        match self {
            TriggerCategory::ProtocolIdentity => "jabber",
            TriggerCategory::LightHumor => "",
            TriggerCategory::AmbientChatter => "",
        }
    }

    pub fn min_interval_seconds(self) -> (seconds: u64)
        ensures
            seconds == self.min_interval(),
    {
        match self {
            TriggerCategory::ProtocolIdentity => 120,
            TriggerCategory::LightHumor => 300,
            TriggerCategory::AmbientChatter => 300,
        }
    }

    pub fn fire_percent(self) -> (percent: u64)
        ensures
            percent == self.fire_chance(),
    {
        match self {
            TriggerCategory::ProtocolIdentity => 50,
            TriggerCategory::LightHumor => 50,
            TriggerCategory::AmbientChatter => 1,
        }
    }
}

/// When each category last fired in one room; `None` for a category that
/// has not fired yet, which is then free to fire at once.
#[derive(Clone, Copy, Debug, PartialEq, Eq)]
pub struct Cooldowns {
    pub protocol_identity: Option<Moment>,
    pub light_humor: Option<Moment>,
    pub ambient_chatter: Option<Moment>,
}

impl Cooldowns {
    /// When `category` last fired.
    pub open spec fn last_fired(self, category: TriggerCategory) -> Option<Moment> {
        match category {
            TriggerCategory::ProtocolIdentity => self.protocol_identity,
            TriggerCategory::LightHumor => self.light_humor,
            TriggerCategory::AmbientChatter => self.ambient_chatter,
        }
    }

    /// These cooldowns after `category` has fired at `now`.
    pub open spec fn fired(self, category: TriggerCategory, now: Moment) -> Cooldowns {
        match category {
            TriggerCategory::ProtocolIdentity => Cooldowns {
                protocol_identity: Some(now),
                ..self
            },
            TriggerCategory::LightHumor => Cooldowns { light_humor: Some(now), ..self },
            TriggerCategory::AmbientChatter => Cooldowns { ambient_chatter: Some(now), ..self },
        }
    }

    /// The cooldowns of a room in which nothing has fired yet.
    pub open spec fn untouched() -> Cooldowns {
        Cooldowns { protocol_identity: None, light_humor: None, ambient_chatter: None }
    }

    /// The cooldowns of a room in which nothing has fired yet.
    pub fn new() -> (cooldowns: Cooldowns)
        ensures
            cooldowns == Cooldowns::untouched(),
    {
        Cooldowns { protocol_identity: None, light_humor: None, ambient_chatter: None }
    }

    pub fn get(&self, category: TriggerCategory) -> (last: Option<Moment>)
        ensures
            last == self.last_fired(category),
    {
        match category {
            TriggerCategory::ProtocolIdentity => self.protocol_identity,
            TriggerCategory::LightHumor => self.light_humor,
            TriggerCategory::AmbientChatter => self.ambient_chatter,
        }
    }
}

/// Enough time has passed at `now` since a category last fired.
pub open spec fn interval_elapsed(last: Option<Moment>, now: Moment, min_seconds: nat) -> bool {
    match last {
        None => true,
        Some(then) => whole_seconds_between(then, now) >= min_seconds,
    }
}

/// A category may fire on `body` at `now`, as far as its cooldown and its
/// pattern go; the dice have the last word.
pub open spec fn gate_open(
    last: Option<Moment>,
    now: Moment,
    body: Seq<char>,
    pattern: Seq<char>,
    min_seconds: nat,
) -> bool {
    interval_elapsed(last, now, min_seconds) && (pattern.len() == 0 || contains_text(
        body,
        pattern,
    ))
}

/// The texts of a list of strings.
pub open spec fn texts(list: Seq<String>) -> Seq<Seq<char>> {
    Seq::new(list.len(), |i: int| list[i]@)
}

/// The text of a string that may be missing.
pub open spec fn text_of(s: Option<String>) -> Option<Seq<char>> {
    match s {
        Some(s) => Some(s@),
        None => None,
    }
}

/// The choice that the rolls make among `choices`: the first roll is the
/// place of the one chosen. Nothing is chosen from nothing, and then nothing
/// is rolled.
pub open spec fn chosen(choices: Seq<Seq<char>>, rolls: Seq<u64>) -> Option<Seq<char>> {
    if choices.len() == 0 {
        None
    } else {
        Some(choices[rolls[0] as int])
    }
}

/// The bounds of the rolls that choosing among `choices` takes: one roll
/// below their number, or none where there is nothing to choose from.
pub open spec fn choice_bounds(choices: Seq<Seq<char>>) -> Seq<u64> {
    if choices.len() == 0 {
        Seq::<u64>::empty()
    } else {
        seq![choices.len() as u64]
    }
}

/// Rolls a percentage: true with a chance of `pct` in a hundred.
pub fn chance(pct: u64, dice: &mut Dice) -> (hit: bool)
    ensures
        final(dice).follows(*old(dice)),
        final(dice).since(*old(dice)).len() == 1,
        final(dice).bounds_since(*old(dice)) == seq![100u64],
        hit == (final(dice).since(*old(dice))[0] < pct),
{
    let roll = dice.roll(100);
    roll < pct
}

/// Picks one of `choices`, each with the same chance.
pub fn pick(choices: &Vec<String>, dice: &mut Dice) -> (picked: Option<String>)
    ensures
        final(dice).follows(*old(dice)),
        final(dice).bounds_since(*old(dice)) == choice_bounds(texts(choices@)),
        text_of(picked) == chosen(texts(choices@), final(dice).since(*old(dice))),
{
    if choices.len() == 0 {
        proof {
            lemma_no_rolls(*old(dice));
        }
        None
    } else {
        let roll = dice.roll(choices.len() as u64);
        Some(choices[roll as usize].clone())
    }
}

/// Decides whether one category fires on a message: its cooldown must have
/// run out, its pattern must stand in the body, and then the dice must
/// agree. A category that fires starts its cooldown anew.
pub fn should_send(
    body: &str,
    last_sent: &mut Option<Moment>,
    now: Moment,
    pattern: &str,
    min_seconds: u64,
    pct: u64,
    dice: &mut Dice,
) -> (fired: bool)
    ensures
        final(dice).follows(*old(dice)),
        ({
            let open = gate_open(*old(last_sent), now, body@, pattern@, min_seconds as nat);
            let rolls = final(dice).since(*old(dice));
            &&& final(dice).bounds_since(*old(dice)) == if open {
                seq![100u64]
            } else {
                Seq::<u64>::empty()
            }
            &&& fired == (open && rolls[0] < pct)
            &&& *final(last_sent) == if fired { Some(now) } else { *old(last_sent) }
        }),
{
    let elapsed = match *last_sent {
        None => true,
        Some(then) => now.seconds_since(then) >= min_seconds,
    };
    let open = elapsed && (pattern.unicode_len() == 0 || has_substring(
        &chars_of(body),
        &chars_of(pattern),
    ));
    if open && chance(pct, dice) {
        *last_sent = Some(now);
        true
    } else {
        proof {
            if !open {
                lemma_no_rolls(*old(dice));
            }
        }
        false
    }
}

} // verus!
