//! The contest configuration: how many participants to gather and the
//! dice-roll bucket boundaries, with the defaults and the precedence rule
//! for values read from a settings file and from the command line.

use vstd::prelude::*;

verus! {

/// The configuration a contest runs under. `players` is the number of
/// participants to gather; `range` holds the bucket boundaries, in
/// ascending tier order.
#[derive(Clone, Debug)]
pub struct AppConfig {
    pub players: Option<usize>,
    pub range: Vec<u8>,
}

/// The default participant count.
pub open spec fn default_players() -> Option<usize> {
    Some(2usize)
}

/// The default bucket boundaries.
pub open spec fn default_range() -> Seq<u8> {
    seq![15u8, 70u8, 96u8]
}

impl Default for AppConfig {
    /// Two participants and the boundaries 15, 70 and 96.
    fn default() -> (r: AppConfig)
        ensures
            r.players == default_players(),
            r.range@ == default_range(),
    {
        let mut range: Vec<u8> = Vec::new();
        range.push(15);
        range.push(70);
        range.push(96);
        proof {
            assert(range@ =~= default_range());
        }
        AppConfig { players: Some(2), range }
    }
}

impl AppConfig {
    /// A copy that is known to carry the same configuration.
    pub fn duplicate(&self) -> (r: AppConfig)
        ensures
            r.players == self.players,
            r.range@ == self.range@,
    {
        let mut range: Vec<u8> = Vec::new();
        let mut i: usize = 0;
        while i < self.range.len()
            invariant
                0 <= i <= self.range@.len(),
                range@ == self.range@.take(i as int),
            decreases self.range@.len() - i,
        {
            range.push(self.range[i]);
            proof {
                assert(range@ =~= self.range@.take(i + 1));
            }
            i = i + 1;
        }
        proof {
            assert(range@ =~= self.range@);
        }
        AppConfig { players: self.players, range }
    }
}

/// Combines the configuration sources by precedence: the defaults are the
/// floor; a settings file that names a participant count or a non-empty
/// boundary list overrides them; a command-line participant count
/// overrides both.
pub fn resolve_config(file: Option<AppConfig>, cli_players: Option<usize>) -> (r: AppConfig)
    ensures
        cli_players is Some ==> r.players == cli_players,
        file matches Some(f) ==> ((cli_players is None && f.players is Some) ==> r.players
            == f.players),
        file matches Some(f) ==> ((cli_players is None && f.players is None) ==> r.players
            == default_players()),
        file is None && cli_players is None ==> r.players == default_players(),
        file matches Some(f) ==> (if f.range@.len() > 0 {
            r.range@ == f.range@
        } else {
            r.range@ == default_range()
        }),
        file is None ==> r.range@ == default_range(),
{
    let mut out = AppConfig::default();
    match file {
        Some(f) => {
            if f.players.is_some() {
                out.players = f.players;
            }
            if f.range.len() > 0 {
                out.range = f.range;
            }
        },
        None => (),
    }
    if cli_players.is_some() {
        out.players = cli_players;
    }
    out
}

} // verus!
