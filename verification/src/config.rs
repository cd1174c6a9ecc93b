//! The configuration: the bot's account and the rooms to join.

use crate::chains::{effective_chains, listed};
use crate::room::RoomView;
use crate::trigger::Cooldowns;
use vstd::prelude::*;
use vstd::string::*;
use xmpp_parsers::BareJid;

verus! {

#[verifier::external_type_specification]
#[verifier::external_body]
pub struct ExJidParseError(xmpp_parsers::JidParseError);

/// The name the bot goes by where the configuration gives none and the
/// account has no local part.
pub const DEFAULT_NICK: &'static str = "ash";

/// One room to join.
#[derive(Clone, Debug)]
pub struct RoomConfig {
    /// The address of the room: local part, `@`, domain.
    pub room: String,
    /// The chains that the room feeds, the one it speaks from first.
    pub chain_indices: Option<Vec<usize>>,
    /// The name the bot goes by in this room.
    pub nick: Option<String>,
}

/// The whole configuration.
#[derive(Clone, Debug)]
pub struct Config {
    /// The address of the bot's account.
    pub jid: String,
    /// The password of the bot's account.
    pub password: String,
    /// Where the message log is kept.
    pub db: Option<String>,
    /// The name the bot goes by where a room gives none.
    pub nick: Option<String>,
    /// The rooms to join.
    pub rooms: Vec<RoomConfig>,
}

/// Why a configuration cannot be used.
#[derive(Clone, Copy, Debug, PartialEq, Eq, Structural)]
pub enum ConfigError {
    /// No room is configured.
    NoRooms,
    /// The address of the account is no address.
    AccountUnparsable,
    /// The address of the room at this place in the list is no address.
    RoomUnparsable(usize),
    /// The address of the room at this place in the list has no local part.
    RoomWithoutLocalPart(usize),
    /// A room lists a chain so high that the pool cannot be counted.
    TooManyChains,
}

/// The place in `s` of the first mark, which is a `/` or, where `at_too`,
/// an `@`; the length of `s` where it holds none.
pub open spec fn first_mark(s: Seq<char>, at_too: bool) -> int
    decreases s.len(),
{
    if s.len() == 0 {
        0
    } else if s[0] == '/' || (at_too && s[0] == '@') {
        0
    } else {
        1 + first_mark(s.drop_first(), at_too)
    }
}

/// `s` begins with a domain of `length` characters: the domain is not
/// empty, and `s` ends with it or goes on with a `/` and a resource that is
/// not empty.
pub open spec fn domain_ends(s: Seq<char>, length: int) -> bool {
    length > 0 && (length == s.len() || length + 1 < s.len())
}

/// What `BareJid::from_str` makes of the text `s`: its local part, if it
/// has one, and its domain; `None` where the text is no address.
///
/// The local part is what stands before the first `@`, provided no `/`
/// comes earlier; it must not be empty. The domain is what follows, up to
/// the first `/`; it must not be empty. What follows that `/` is the
/// resource, which a bare address drops but which must not be empty
/// either.
pub open spec fn parsed_bare_jid(s: Seq<char>) -> Option<(Option<Seq<char>>, Seq<char>)> {
    let mark = first_mark(s, true);
    if mark < s.len() && s[mark] == '@' {
        let rest = s.skip(mark + 1);
        let end = first_mark(rest, false);
        if mark > 0 && domain_ends(rest, end) {
            Some((Some(s.take(mark)), rest.take(end)))
        } else {
            None
        }
    } else if domain_ends(s, mark) {
        Some((None, s.take(mark)))
    } else {
        None
    }
}

/// The parts of a parsed address as texts.
pub open spec fn address_text(
    parsed: Result<(Option<String>, String), xmpp_parsers::JidParseError>,
) -> Option<(Option<Seq<char>>, Seq<char>)> {
    match parsed {
        Ok((Some(local), domain)) => Some((Some(local@), domain@)),
        Ok((None, domain)) => Some((None, domain@)),
        Err(_) => None,
    }
}

/// Parses a bare address with `BareJid::from_str` and hands out its `node`
/// and `domain`. Trusted: the text is taken apart at its first `@` and its
/// first `/` as `parsed_bare_jid` says, and is refused where the local
/// part, the domain or the resource would be empty.
#[verifier::external_body]
fn parse_bare_jid(s: &str) -> (parsed: Result<
    (Option<String>, String),
    xmpp_parsers::JidParseError,
>)
    ensures
        address_text(parsed) == parsed_bare_jid(s@),
{
    s.parse::<BareJid>().map(|jid| (jid.node, jid.domain))
}

/// An address in parts.
#[derive(Clone, Debug)]
pub struct BareAddress {
    pub local: Option<String>,
    pub domain: String,
}

impl BareAddress {
    /// The parts as texts.
    pub open spec fn parts(self) -> (Option<Seq<char>>, Seq<char>) {
        match self.local {
            Some(local) => (Some(local@), self.domain@),
            None => (None, self.domain@),
        }
    }
}

/// The parts of an address that may be missing.
pub open spec fn parts_of(address: Option<BareAddress>) -> Option<(Option<Seq<char>>, Seq<char>)> {
    match address {
        Some(address) => Some(address.parts()),
        None => None,
    }
}

/// Reads a bare address: `None` where the text is none.
pub fn read_address(s: &str) -> (address: Option<BareAddress>)
    ensures
        parts_of(address) == parsed_bare_jid(s@),
{
    match parse_bare_jid(s) {
        Ok((local, domain)) => Some(BareAddress { local, domain }),
        Err(_) => None,
    }
}

/// The name the bot goes by in a room: the room's own nick, else the nick
/// of the configuration, else the local part of the account, else the
/// default.
pub open spec fn effective_nick(
    room_nick: Option<String>,
    default_nick: Option<String>,
    account_local: Option<Seq<char>>,
) -> Seq<char> {
    match room_nick {
        Some(nick) => nick@,
        None => match default_nick {
            Some(nick) => nick@,
            None => match account_local {
                Some(local) => local,
                None => DEFAULT_NICK@,
            },
        },
    }
}

/// Works out the name the bot goes by in a room.
pub fn resolve_nick(
    room_nick: &Option<String>,
    default_nick: &Option<String>,
    account_local: &Option<String>,
) -> (nick: String)
    ensures
        nick@ == effective_nick(
            *room_nick,
            *default_nick,
            match *account_local {
                Some(local) => Some(local@),
                None => None,
            },
        ),
{
    match room_nick {
        Some(nick) => nick.clone(),
        None => match default_nick {
            Some(nick) => nick.clone(),
            None => match account_local {
                Some(local) => local.clone(),
                None => DEFAULT_NICK.to_owned(),
            },
        },
    }
}

/// What is wrong with one configured room, at place `index` of the list.
pub open spec fn room_problem(room: RoomConfig, index: int) -> Option<ConfigError> {
    match parsed_bare_jid(room.room@) {
        None => Some(ConfigError::RoomUnparsable(index as usize)),
        Some((None, _)) => Some(ConfigError::RoomWithoutLocalPart(index as usize)),
        Some((Some(_), _)) => None,
    }
}

/// The local part of the account of a configuration.
pub open spec fn account_local(config: Config) -> Option<Seq<char>> {
    match parsed_bare_jid(config.jid@) {
        Some((local, _)) => local,
        None => None,
    }
}

/// The room that the configuration asks for at place `index` of its list,
/// as it is before anything has happened in it.
pub open spec fn configured_room(config: Config, index: int) -> RoomView {
    let room = config.rooms@[index];
    let address = parsed_bare_jid(room.room@);
    RoomView {
        nick: effective_nick(room.nick, config.nick, account_local(config)),
        local: match address {
            Some((Some(local), _)) => local,
            _ => Seq::<char>::empty(),
        },
        domain: match address {
            Some((_, domain)) => domain,
            None => Seq::<char>::empty(),
        },
        chains: effective_chains(listed(room.chain_indices)),
        cooldowns: Cooldowns::untouched(),
    }
}

} // verus!
