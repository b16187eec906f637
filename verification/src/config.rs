//! The client's settings, and how they are settled when the program starts:
//! a stored configuration without an emoji dictionary gets the bundled one.
use vstd::prelude::*;

verus! {

#[derive(Debug, Clone)]
pub struct Config {
    pub version: u8,
    pub vim_mode: bool,
    pub discreet_notifs: bool,
    pub slient_typing: bool,
    /// Emoji names and the emoji each stands for.
    pub emoji_map: Vec<(String, String)>,
}

/// The settings used when none can be loaded: version 1, vim keys on,
/// full notifications, typing shown, no emoji dictionary.
pub open spec fn is_default_config(c: Config) -> bool {
    &&& c.version == 1
    &&& c.vim_mode
    &&& !c.discreet_notifs
    &&& !c.slient_typing
    &&& c.emoji_map@.len() == 0
}

impl Default for Config {
    fn default() -> (r: Config)
        ensures
            is_default_config(r),
    {
        Config {
            version: 1,
            vim_mode: true,
            discreet_notifs: false,
            slient_typing: false,
            emoji_map: Vec::new(),
        }
    }
}

/// The pairs of strings a JSON text holds, read the way `serde_json` reads a
/// list of two-string arrays; `None` when the text is not such a list.
pub uninterp spec fn emoji_pairs(text: Seq<char>) -> Option<Seq<(Seq<char>, Seq<char>)>>;

pub open spec fn pair_views(s: Seq<(String, String)>) -> Seq<(Seq<char>, Seq<char>)> {
    s.map_values(|p: (String, String)| (p.0@, p.1@))
}

/// Calls `serde_json::from_str::<Vec<(String, String)>>`; what it reads is
/// named `emoji_pairs`. A parse error comes back as its message, of which
/// nothing is stated.
#[verifier::external_body]
fn parse_emoji_pairs(text: &str) -> (r: Result<Vec<(String, String)>, String>)
    ensures
        match r {
            Ok(v) => emoji_pairs(text@) == Some(pair_views(v@)),
            Err(_) => emoji_pairs(text@) is None,
        },
{
    serde_json::from_str::<Vec<(String, String)>>(text).map_err(|e| e.to_string())
}

/// The emoji dictionary from what was read of its text (empty when the text
/// could not be read), and the parse error, if any.
pub fn emojis_or_empty(parsed: Result<Vec<(String, String)>, String>) -> (r: (
    Vec<(String, String)>,
    Option<String>,
))
    ensures
        r.0@ == match parsed {
            Ok(v) => v@,
            Err(_) => Seq::empty(),
        },
        r.1 == match parsed {
            Ok(_) => None,
            Err(e) => Some(e),
        },
{
    match parsed {
        Ok(v) => (v, None),
        Err(e) => (Vec::new(), Some(e)),
    }
}

/// The emoji dictionary held by the JSON text `text`.
pub open spec fn dictionary_of(text: Seq<char>) -> Seq<(Seq<char>, Seq<char>)> {
    match emoji_pairs(text) {
        Some(p) => p,
        None => Seq::empty(),
    }
}

/// Reads the emoji dictionary from its JSON text; the second part is the
/// parse error, present exactly when the text is not a list of string pairs.
pub fn load_emojis(text: &str) -> (r: (Vec<(String, String)>, Option<String>))
    ensures
        pair_views(r.0@) == dictionary_of(text@),
        r.1 is Some <==> emoji_pairs(text@) is None,
{
    let parsed = parse_emoji_pairs(text);
    let r = emojis_or_empty(parsed);
    proof {
        if emoji_pairs(text@) is None {
            assert(pair_views(r.0@) =~= Seq::empty());
        }
    }
    r
}

/// The settings the client runs with, from what loading the stored ones gave;
/// whether they must be stored again; and the error of reading the bundled
/// emoji dictionary, when it was read and could not be.
pub open spec fn settled(
    loaded: Result<Config, String>,
    emojis_json: Seq<char>,
    r: (Config, bool, Option<String>),
) -> bool {
    match loaded {
        Err(_) => is_default_config(r.0) && !r.1 && r.2 is None,
        Ok(cfg) => if cfg.emoji_map@.len() == 0 {
            &&& r.0.version == cfg.version
            &&& r.0.vim_mode == cfg.vim_mode
            &&& r.0.discreet_notifs == cfg.discreet_notifs
            &&& r.0.slient_typing == cfg.slient_typing
            &&& pair_views(r.0.emoji_map@) == dictionary_of(emojis_json)
            &&& r.1
            &&& (r.2 is Some <==> emoji_pairs(emojis_json) is None)
        } else {
            r.0 == cfg && !r.1 && r.2 is None
        },
    }
}

/// Settles the configuration: the stored one when it could be loaded (given
/// the bundled emoji dictionary `emojis_json` when it has none, in which case
/// it must be stored again), else the defaults.
pub fn load_config(loaded: Result<Config, String>, emojis_json: &str) -> (r: (
    Config,
    bool,
    Option<String>,
))
    ensures
        settled(loaded, emojis_json@, r),
{
    match loaded {
        Ok(mut cfg) => {
            if cfg.emoji_map.len() == 0 {
                let (map, err) = load_emojis(emojis_json);
                cfg.emoji_map = map;
                (cfg, true, err)
            } else {
                (cfg, false, None)
            }
        },
        Err(_) => (Config::default(), false, None),
    }
}

} // verus!
