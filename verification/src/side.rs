//! Client, server, both or neither.
use vstd::prelude::*;

use crate::text::same;

verus! {

/// Which logical side a mod belongs to: client-only, server-only, both, or `Neither` for a project
/// a provider marks as neither required nor supported anywhere. `Neither` is kept distinct from
/// `Both` so the distinction survives a round-trip instead of being silently widened.
#[derive(Debug, Clone, Copy, PartialEq, Eq, Structural)]
pub enum Side {
    Client,
    Server,
    Both,
    /// Neither client nor server (a Modrinth project unsupported on both environments).
    Neither,
}

impl DeepView for Side {
    type V = Side;

    open spec fn deep_view(&self) -> Side {
        *self
    }
}

impl Default for Side {
    fn default() -> (r: Self)
        ensures
            r == Side::Both,
    {
        Side::Both
    }
}

/// The word that stands for a side in `lode.json` and `lode.lock`.
pub open spec fn side_word(side: Side) -> Seq<char> {
    match side {
        Side::Client => "client"@,
        Side::Server => "server"@,
        Side::Both => "both"@,
        Side::Neither => "none"@,
    }
}

/// What packwiz writes in the `side` field: the same word, but nothing for neither side.
pub open spec fn packwiz_side(side: Side) -> Seq<char> {
    if side == Side::Neither {
        ""@
    } else {
        side_word(side)
    }
}

/// The side that a word stands for.
pub open spec fn side_named(word: Seq<char>) -> Option<Side> {
    if word == side_word(Side::Client) {
        Some(Side::Client)
    } else if word == side_word(Side::Server) {
        Some(Side::Server)
    } else if word == side_word(Side::Both) {
        Some(Side::Both)
    } else if word == side_word(Side::Neither) {
        Some(Side::Neither)
    } else {
        None
    }
}

/// The side of a project, from the support it declares for the two environments.
pub open spec fn side_of_support(client: bool, server: bool) -> Side {
    if client && server {
        Side::Both
    } else if client {
        Side::Client
    } else if server {
        Side::Server
    } else {
        Side::Neither
    }
}

impl Side {
    /// The token for a `.pw.toml` `side` field: an empty string for the neither-side case. A file
    /// without the field stands for `Both`.
    pub fn packwiz_token(self) -> (r: &'static str)
        ensures
            r@ == packwiz_side(self),
    {
        match self {
            Side::Client => "client",
            Side::Server => "server",
            Side::Both => "both",
            Side::Neither => "",
        }
    }

    /// Whether a `.pw.toml` without a `side` field means this side (`Both` is the implicit default).
    pub fn is_default(self) -> (r: bool)
        ensures
            r == (self == Side::Both),
    {
        matches!(self, Side::Both)
    }

    /// Derive the side from a provider's per-environment support flags
    /// (Modrinth's `client_side` / `server_side`). Neither-supported yields `Neither`.
    pub fn from_env(client_supported: bool, server_supported: bool) -> (r: Side)
        ensures
            r == side_of_support(client_supported, server_supported),
    {
        match (client_supported, server_supported) {
            (true, true) => Side::Both,
            (true, false) => Side::Client,
            (false, true) => Side::Server,
            (false, false) => Side::Neither,
        }
    }

    /// The word for this side in the manifest and the lock.
    pub fn token(self) -> (r: &'static str)
        ensures
            r@ == side_word(self),
    {
        match self {
            Side::Client => "client",
            Side::Server => "server",
            Side::Both => "both",
            Side::Neither => "none",
        }
    }

    /// The side that a word of the manifest or the lock stands for.
    pub fn from_token(word: &str) -> (r: Option<Side>)
        ensures
            r == side_named(word@),
    {
        if same(word, "client") {
            Some(Side::Client)
        } else if same(word, "server") {
            Some(Side::Server)
        } else if same(word, "both") {
            Some(Side::Both)
        } else if same(word, "none") {
            Some(Side::Neither)
        } else {
            None
        }
    }
}

/// The four words are pairwise different, and none of them is empty.
pub proof fn side_words_differ(a: Side, b: Side)
    ensures
        side_word(a) == side_word(b) ==> a == b,
        side_word(a).len() > 0,
{
    reveal_strlit("client");
    reveal_strlit("server");
    reveal_strlit("both");
    reveal_strlit("none");
    assert("client"@[0] == 'c' && "server"@[0] == 's' && "both"@[0] == 'b' && "none"@[0] == 'n');
}

/// Reading back the word of a side gives that side: in particular, neither side never turns
/// into both.
pub proof fn side_survives_its_word(side: Side)
    ensures
        side_named(side_word(side)) == Some(side),
{
    side_words_differ(Side::Client, side);
    side_words_differ(Side::Server, side);
    side_words_differ(Side::Both, side);
    side_words_differ(Side::Neither, side);
}

/// packwiz's token tells the four sides apart too, and is empty for neither side alone.
pub proof fn packwiz_tokens_differ(a: Side, b: Side)
    ensures
        packwiz_side(a) == packwiz_side(b) ==> a == b,
        packwiz_side(a).len() == 0 <==> a == Side::Neither,
{
    reveal_strlit("");
    side_words_differ(a, b);
    side_words_differ(b, a);
}

/// A project that runs on the client is for the client, one that runs on the server for the server: the
/// side is made of exactly the two answers.
pub proof fn a_side_is_made_of_its_support(client: bool, server: bool)
    ensures
        ({
            let side = side_of_support(client, server);
            &&& client <==> side == Side::Client || side == Side::Both
            &&& server <==> side == Side::Server || side == Side::Both
        }),
{
}

} // verus!
