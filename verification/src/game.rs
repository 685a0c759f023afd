//! Game datatypes shared by the parsing and reporting modules: players,
//! kills, the canonical means-of-death table, and a completed game.

use vstd::prelude::*;
use crate::text;

verus! {

/// Player ID in the log file.
pub type PlayerId = u32;

/// Kill count of a player or of a means of death. Signed, because a player
/// loses a point whenever the world kills them.
pub type KillCount = i64;

/// Player name in the log file.
pub type PlayerName = String;

/// Means of Death (MOD), held as its position in the canonical ordered
/// table of recognized causes (see [`means_name`]).
pub type MeansOfDeath = usize;

/// Number of entries in the canonical means-of-death table.
pub const MEANS_OF_DEATH_COUNT: usize = 29;

/// Killer ID that some log variants use to attribute a kill to the world.
pub const WORLD_KILLER_ID: PlayerId = 1022;

/// The canonical display name of means-of-death `m`; the empty sequence
/// outside the table.
pub open spec fn spec_means_name(m: int) -> Seq<char> {
    if m == 0 { "MOD_UNKNOWN"@ }
    else if m == 1 { "MOD_SHOTGUN"@ }
    else if m == 2 { "MOD_GAUNTLET"@ }
    else if m == 3 { "MOD_MACHINEGUN"@ }
    else if m == 4 { "MOD_GRENADE"@ }
    else if m == 5 { "MOD_GRENADE_SPLASH"@ }
    else if m == 6 { "MOD_ROCKET"@ }
    else if m == 7 { "MOD_ROCKET_SPLASH"@ }
    else if m == 8 { "MOD_PLASMA"@ }
    else if m == 9 { "MOD_PLASMA_SPLASH"@ }
    else if m == 10 { "MOD_RAILGUN"@ }
    else if m == 11 { "MOD_LIGHTNING"@ }
    else if m == 12 { "MOD_BFG"@ }
    else if m == 13 { "MOD_BFG_SPLASH"@ }
    else if m == 14 { "MOD_WATER"@ }
    else if m == 15 { "MOD_SLIME"@ }
    else if m == 16 { "MOD_LAVA"@ }
    else if m == 17 { "MOD_CRUSH"@ }
    else if m == 18 { "MOD_TELEFRAG"@ }
    else if m == 19 { "MOD_FALLING"@ }
    else if m == 20 { "MOD_SUICIDE"@ }
    else if m == 21 { "MOD_TARGET_LASER"@ }
    else if m == 22 { "MOD_TRIGGER_HURT"@ }
    else if m == 23 { "MOD_NAIL"@ }
    else if m == 24 { "MOD_CHAINGUN"@ }
    else if m == 25 { "MOD_PROXIMITY_MINE"@ }
    else if m == 26 { "MOD_KAMIKAZE"@ }
    else if m == 27 { "MOD_JUICED"@ }
    else if m == 28 { "MOD_GRAPPLE"@ }
    else { Seq::empty() }
}

/// First canonical index at or after `m` whose name is `s`, if any.
pub open spec fn means_lookup_from(s: Seq<char>, m: int) -> Option<MeansOfDeath>
    decreases MEANS_OF_DEATH_COUNT - m,
{
    if m < 0 || m >= MEANS_OF_DEATH_COUNT {
        None
    } else if spec_means_name(m) == s {
        Some(m as usize)
    } else {
        means_lookup_from(s, m + 1)
    }
}

/// The canonical index named `s`, if any.
pub open spec fn spec_means_from_name(s: Seq<char>) -> Option<MeansOfDeath> {
    means_lookup_from(s, 0)
}

/// The canonical display name of means-of-death `m`.
pub fn means_name(m: MeansOfDeath) -> (r: &'static str)
    requires
        m < MEANS_OF_DEATH_COUNT,
    ensures
        r@ == spec_means_name(m as int),
{
    if m == 0 { "MOD_UNKNOWN" }
    else if m == 1 { "MOD_SHOTGUN" }
    else if m == 2 { "MOD_GAUNTLET" }
    else if m == 3 { "MOD_MACHINEGUN" }
    else if m == 4 { "MOD_GRENADE" }
    else if m == 5 { "MOD_GRENADE_SPLASH" }
    else if m == 6 { "MOD_ROCKET" }
    else if m == 7 { "MOD_ROCKET_SPLASH" }
    else if m == 8 { "MOD_PLASMA" }
    else if m == 9 { "MOD_PLASMA_SPLASH" }
    else if m == 10 { "MOD_RAILGUN" }
    else if m == 11 { "MOD_LIGHTNING" }
    else if m == 12 { "MOD_BFG" }
    else if m == 13 { "MOD_BFG_SPLASH" }
    else if m == 14 { "MOD_WATER" }
    else if m == 15 { "MOD_SLIME" }
    else if m == 16 { "MOD_LAVA" }
    else if m == 17 { "MOD_CRUSH" }
    else if m == 18 { "MOD_TELEFRAG" }
    else if m == 19 { "MOD_FALLING" }
    else if m == 20 { "MOD_SUICIDE" }
    else if m == 21 { "MOD_TARGET_LASER" }
    else if m == 22 { "MOD_TRIGGER_HURT" }
    else if m == 23 { "MOD_NAIL" }
    else if m == 24 { "MOD_CHAINGUN" }
    else if m == 25 { "MOD_PROXIMITY_MINE" }
    else if m == 26 { "MOD_KAMIKAZE" }
    else if m == 27 { "MOD_JUICED" }
    else { "MOD_GRAPPLE" }
}

/// Looks a display name up in the canonical means-of-death table.
pub fn means_from_name(s: &str) -> (r: Option<MeansOfDeath>)
    ensures
        r == spec_means_from_name(s@),
        r matches Some(m) ==> m < MEANS_OF_DEATH_COUNT,
{
    let mut m: usize = 0;
    while m < MEANS_OF_DEATH_COUNT
        invariant
            m <= MEANS_OF_DEATH_COUNT,
            means_lookup_from(s@, 0) == means_lookup_from(s@, m as int),
        decreases MEANS_OF_DEATH_COUNT - m,
    {
        if text::str_eq(s, means_name(m)) {
            return Some(m);
        }
        m += 1;
    }
    None
}

/// All canonical means-of-death names, in canonical order.
pub fn all_means_of_death() -> (r: Vec<&'static str>)
    ensures
        r@.len() == MEANS_OF_DEATH_COUNT,
        forall|i: int| 0 <= i < r@.len() ==> r@[i]@ == spec_means_name(i),
{
    let mut v: Vec<&'static str> = Vec::new();
    let mut m: usize = 0;
    while m < MEANS_OF_DEATH_COUNT
        invariant
            m <= MEANS_OF_DEATH_COUNT,
            v@.len() == m,
            forall|i: int| 0 <= i < m ==> v@[i]@ == spec_means_name(i),
        decreases MEANS_OF_DEATH_COUNT - m,
    {
        v.push(means_name(m));
        m += 1;
    }
    v
}

/// The agent that kills another agent in a `Kill` event.
#[derive(Debug, Clone, Copy, PartialEq, Eq, PartialOrd, Ord, Hash)]
pub enum Killer {
    /// The world is the killer, e.g. the target died in an accident.
    World,
    /// The killer is an actual player.
    Player(PlayerId),
}

/// A `Kill` event as read from the log file.
#[derive(Debug, Clone, PartialEq, Eq)]
pub struct Kill {
    /// The killer agent, player or world.
    pub killer: Killer,
    /// The target agent, always a dead player.
    pub target: PlayerId,
    /// The way this killing happened.
    pub means: MeansOfDeath,
}

/// Mathematical model of a completed game.
pub struct GameView {
    /// Players by id, each with the name they last used, in the order they
    /// were first seen.
    pub players: Seq<(PlayerId, Seq<char>)>,
    /// The kills, in the order they happened.
    pub kills: Seq<Kill>,
}

/// A game: a full match as read from the logs.
#[derive(Debug, Clone, PartialEq, Eq)]
pub struct Game {
    /// Players by id, each with the name they last used, in the order they
    /// were first seen. Ids are unique.
    pub players: Vec<(PlayerId, PlayerName)>,
    /// A list of `Kill` events in the order they happened.
    pub kills: Vec<Kill>,
}

impl View for Game {
    type V = GameView;

    open spec fn view(&self) -> GameView {
        GameView {
            players: self.players@.map_values(|p: (PlayerId, PlayerName)| (p.0, p.1@)),
            kills: self.kills@,
        }
    }
}

/// First index at or after `i` of the player with the given id, if any.
pub open spec fn find_player_from(players: Seq<(PlayerId, Seq<char>)>, id: PlayerId, i: int) -> Option<int>
    decreases players.len() - i,
{
    if i < 0 || i >= players.len() {
        None
    } else if players[i].0 == id {
        Some(i)
    } else {
        find_player_from(players, id, i + 1)
    }
}

/// A failed player search means no entry from `i` on carries the id.
pub proof fn lemma_find_player_none(players: Seq<(PlayerId, Seq<char>)>, id: PlayerId, i: int)
    requires
        0 <= i,
        find_player_from(players, id, i) is None,
    ensures
        forall|j: int| i <= j < players.len() ==> players[j].0 != id,
    decreases players.len() - i,
{
    if i < players.len() {
        lemma_find_player_none(players, id, i + 1);
    }
}

/// A successful player search returns the first entry carrying the id.
pub proof fn lemma_find_player_some(players: Seq<(PlayerId, Seq<char>)>, id: PlayerId, i: int)
    requires
        0 <= i,
        find_player_from(players, id, i) is Some,
    ensures
        i <= find_player_from(players, id, i)->0 < players.len(),
        players[find_player_from(players, id, i)->0].0 == id,
        forall|j: int| i <= j < find_player_from(players, id, i)->0 ==> players[j].0 != id,
    decreases players.len() - i,
{
    if i < players.len() && players[i].0 != id {
        lemma_find_player_some(players, id, i + 1);
    }
}

impl GameView {
    /// A game with no players and no kills.
    pub open spec fn empty() -> GameView {
        GameView { players: Seq::empty(), kills: Seq::empty() }
    }

    /// Every player id occurs at most once.
    pub open spec fn ids_unique(self) -> bool {
        forall|i: int, j: int|
            0 <= i < j < self.players.len() ==> self.players[i].0 != self.players[j].0
    }

    /// Every kill names a means of death from the canonical table.
    pub open spec fn causes_canonical(self) -> bool {
        forall|i: int| 0 <= i < self.kills.len() ==> (#[trigger] self.kills[i]).means < MEANS_OF_DEATH_COUNT
    }

    /// The structural invariant every game produced by the parser enjoys.
    pub open spec fn inv(self) -> bool {
        self.ids_unique() && self.causes_canonical()
    }
}

impl Game {
    /// Finds the position of the player with the given id.
    pub fn find_player(&self, id: PlayerId) -> (r: Option<usize>)
        ensures
            match r {
                Some(i) => find_player_from(self@.players, id, 0) == Some(i as int),
                None => find_player_from(self@.players, id, 0) is None,
            },
    {
        let n = self.players.len();
        let mut i: usize = 0;
        while i < n
            invariant
                i <= n,
                n == self@.players.len(),
                find_player_from(self@.players, id, 0) == find_player_from(self@.players, id, i as int),
            decreases n - i,
        {
            if self.players[i].0 == id {
                return Some(i);
            }
            i += 1;
        }
        None
    }
}

impl Default for Game {
    /// An empty game, as created when a match opens.
    fn default() -> (r: Self)
        ensures
            r@ == GameView::empty(),
    {
        let r = Game { players: Vec::new(), kills: Vec::new() };
        proof {
            assert(r@.players =~= Seq::<(PlayerId, Seq<char>)>::empty());
        }
        r
    }
}

} // verus!
