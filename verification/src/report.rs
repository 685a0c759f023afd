//! Report builders: folding one completed game into per-player and
//! per-cause kill statistics, and a whole log into a labeled collection of
//! game reports.

use vstd::prelude::*;
use vstd::string::StringExecFns;
use crate::error::Error;
use crate::game::{
    lemma_find_player_some, find_player_from, Game, GameView, Kill, KillCount, Killer,
    PlayerId, PlayerName, MEANS_OF_DEATH_COUNT,
};
use crate::parser::Parser;
use crate::text;

verus! {

/// Game name in the dictionary of games.
pub type GameName = String;

/// `x + 1`, stopping at the largest representable kill count.
pub open spec fn sat_inc(x: int) -> int {
    if x + 1 > i64::MAX {
        i64::MAX as int
    } else {
        x + 1
    }
}

/// `x - 1`, stopping at the smallest representable kill count.
pub open spec fn sat_dec(x: int) -> int {
    if x - 1 < i64::MIN {
        i64::MIN as int
    } else {
        x - 1
    }
}

/// The views of a list of names.
pub open spec fn names_of(names: Seq<PlayerName>) -> Seq<Seq<char>> {
    names.map_values(|n: PlayerName| n@)
}

/// The mathematical contents of a list of kill counts.
pub open spec fn counts_of(counts: Seq<KillCount>) -> Seq<int> {
    counts.map_values(|c: KillCount| c as int)
}

/// Distinct player names, in the order their ids were first seen.
pub open spec fn distinct_names(players: Seq<(PlayerId, Seq<char>)>) -> Seq<Seq<char>>
    decreases players.len(),
{
    if players.len() == 0 {
        Seq::empty()
    } else {
        let prev = distinct_names(players.drop_last());
        if prev.contains(players.last().1) {
            prev
        } else {
            prev.push(players.last().1)
        }
    }
}

/// First index of `name` at or after `i` in a list of names, if any.
pub open spec fn name_index_from(names: Seq<Seq<char>>, name: Seq<char>, i: int) -> Option<int>
    decreases names.len() - i,
{
    if i < 0 || i >= names.len() {
        None
    } else if names[i] == name {
        Some(i)
    } else {
        name_index_from(names, name, i + 1)
    }
}

/// A failed name search means the name is absent from `i` on.
pub proof fn lemma_name_index_none(names: Seq<Seq<char>>, name: Seq<char>, i: int)
    requires
        0 <= i,
        name_index_from(names, name, i) is None,
    ensures
        forall|j: int| i <= j < names.len() ==> names[j] != name,
    decreases names.len() - i,
{
    if i < names.len() {
        lemma_name_index_none(names, name, i + 1);
    }
}

/// A successful name search returns the first index carrying the name.
pub proof fn lemma_name_index_some(names: Seq<Seq<char>>, name: Seq<char>, i: int)
    requires
        0 <= i,
        name_index_from(names, name, i) is Some,
    ensures
        i <= name_index_from(names, name, i)->0 < names.len(),
        names[name_index_from(names, name, i)->0] == name,
        forall|j: int| i <= j < name_index_from(names, name, i)->0 ==> names[j] != name,
    decreases names.len() - i,
{
    if i < names.len() && names[i] != name {
        lemma_name_index_some(names, name, i + 1);
    }
}

/// The player whose score one kill moves, and whether it moves up: a
/// player killing earns a point, a player killed by the world loses one.
pub open spec fn kill_adjust(k: Kill) -> (PlayerId, bool) {
    match k.killer {
        Killer::World => (k.target, false),
        Killer::Player(id) => (id, true),
    }
}

/// One kill applied to the scoreboard: the adjustment is skipped when the
/// adjusted player id has no entry in the game's player table.
pub open spec fn apply_kill(
    players: Seq<(PlayerId, Seq<char>)>,
    names: Seq<Seq<char>>,
    scores: Seq<int>,
    k: Kill,
) -> Seq<int> {
    match find_player_from(players, kill_adjust(k).0, 0) {
        None => scores,
        Some(pi) => match name_index_from(names, players[pi].1, 0) {
            None => scores,
            Some(si) => scores.update(
                si,
                if kill_adjust(k).1 {
                    sat_inc(scores[si])
                } else {
                    sat_dec(scores[si])
                },
            ),
        },
    }
}

/// The scoreboard parallel to `names` after the first `i` kills.
pub open spec fn scores_after(
    players: Seq<(PlayerId, Seq<char>)>,
    names: Seq<Seq<char>>,
    kills: Seq<Kill>,
    i: int,
) -> Seq<int>
    decreases i,
{
    if i <= 0 {
        Seq::new(names.len(), |j: int| 0)
    } else {
        apply_kill(players, names, scores_after(players, names, kills, i - 1), kills[i - 1])
    }
}

/// The per-cause histogram after the first `i` kills; a kill with a cause
/// outside the canonical table counts in no bucket.
pub open spec fn hist_after(kills: Seq<Kill>, i: int) -> Seq<int>
    decreases i,
{
    if i <= 0 {
        Seq::new(MEANS_OF_DEATH_COUNT as nat, |j: int| 0)
    } else {
        let h = hist_after(kills, i - 1);
        let m = kills[i - 1].means;
        if m < MEANS_OF_DEATH_COUNT {
            h.update(m as int, sat_inc(h[m as int]))
        } else {
            h
        }
    }
}

/// First kill at or after `i` whose cause is outside the canonical table,
/// if any.
pub open spec fn first_unknown_means_from(kills: Seq<Kill>, i: int) -> Option<int>
    decreases kills.len() - i,
{
    if i < 0 || i >= kills.len() {
        None
    } else if kills[i].means >= MEANS_OF_DEATH_COUNT {
        Some(i)
    } else {
        first_unknown_means_from(kills, i + 1)
    }
}

/// Mathematical model of a game report.
pub struct ReportView {
    /// Total kill count, including the world's.
    pub total_kills: int,
    /// Names of the players in the match.
    pub players: Seq<Seq<char>>,
    /// Net kill score per player name.
    pub kills: Seq<(Seq<char>, int)>,
    /// Kill count per canonical means of death.
    pub kills_by_means: Seq<int>,
}

/// The report a game denotes: the kill-list length (stopping at the
/// largest representable count), the distinct player names, the scoreboard
/// after every kill, and the full per-cause histogram.
pub open spec fn spec_game_report(g: GameView) -> ReportView {
    let names = distinct_names(g.players);
    let scores = scores_after(g.players, names, g.kills, g.kills.len() as int);
    ReportView {
        total_kills: if g.kills.len() <= i64::MAX {
            g.kills.len() as int
        } else {
            i64::MAX as int
        },
        players: names,
        kills: Seq::new(names.len(), |i: int| (names[i], scores[i])),
        kills_by_means: hist_after(g.kills, g.kills.len() as int),
    }
}

/// A datatype representing the report of a single game.
#[derive(Debug, Clone, PartialEq, Eq)]
pub struct GameReport {
    /// Total kill count in the game, including the world's.
    pub total_kills: KillCount,
    /// Names of the players that were in the match, more specifically the
    /// last name each used, in the order their ids were first seen.
    pub players: Vec<PlayerName>,
    /// The mapping of player names to their scores in terms of killing,
    /// discounting one for each time they died because of the world.
    pub kills: Vec<(PlayerName, KillCount)>,
    /// Kill counts by canonical means of death, in canonical order.
    pub kills_by_means: Vec<KillCount>,
}

impl View for GameReport {
    type V = ReportView;

    open spec fn view(&self) -> ReportView {
        ReportView {
            total_kills: self.total_kills as int,
            players: names_of(self.players@),
            kills: self.kills@.map_values(|p: (PlayerName, KillCount)| (p.0@, p.1 as int)),
            kills_by_means: counts_of(self.kills_by_means@),
        }
    }
}

/// Finds the first entry of `names` that equals `target`.
fn find_name(names: &Vec<PlayerName>, target: &str) -> (r: Option<usize>)
    ensures
        match r {
            Some(i) => i < names@.len() && name_index_from(names_of(names@), target@, 0) == Some(
                i as int,
            ),
            None => name_index_from(names_of(names@), target@, 0) is None,
        },
{
    let n = names.len();
    let mut i: usize = 0;
    while i < n
        invariant
            i <= n,
            n == names@.len(),
            name_index_from(names_of(names@), target@, 0) == name_index_from(
                names_of(names@),
                target@,
                i as int,
            ),
        decreases n - i,
    {
        if text::str_eq(names[i].as_str(), target) {
            return Some(i);
        }
        i += 1;
    }
    None
}

impl GameReport {
    /// Generates the report object from the given game data. Fails exactly
    /// when some kill names a means of death outside the canonical table,
    /// naming the first such cause.
    pub fn generate(game: &Game) -> (r: Result<GameReport, Error>)
        ensures
            match r {
                Ok(rep) => game@.causes_canonical() && rep@ == spec_game_report(game@),
                Err(e) => {
                    &&& !game@.causes_canonical()
                    &&& first_unknown_means_from(game@.kills, 0) is Some
                    &&& e == Error::UnknownMeansOfDeath(
                        game@.kills[first_unknown_means_from(game@.kills, 0)->0].means,
                    )
                },
            },
    {
        let ghost gps = game@.players;
        let kn = game.kills.len();
        let total_kills: i64 = if kn as u64 <= i64::MAX as u64 {
            kn as i64
        } else {
            i64::MAX
        };

        let pn = game.players.len();
        let mut players: Vec<PlayerName> = Vec::new();
        let mut scores: Vec<KillCount> = Vec::new();
        let mut pi: usize = 0;
        while pi < pn
            invariant
                pi <= pn,
                pn == game@.players.len(),
                gps == game@.players,
                names_of(players@) == distinct_names(gps.take(pi as int)),
                scores@.len() == players@.len(),
                forall|j: int| 0 <= j < scores@.len() ==> scores@[j] == 0i64,
            decreases pn - pi,
        {
            let nm = &game.players[pi].1;
            proof {
                assert(gps.take(pi + 1).drop_last() =~= gps.take(pi as int));
                assert(gps.take(pi + 1).last() == gps[pi as int]);
                assert(gps[pi as int].1 == nm@);
            }
            match find_name(&players, nm.as_str()) {
                Some(_) => {
                    proof {
                        lemma_name_index_some(names_of(players@), nm@, 0);
                        assert(names_of(players@).contains(nm@));
                    }
                },
                None => {
                    proof {
                        lemma_name_index_none(names_of(players@), nm@, 0);
                        assert(!names_of(players@).contains(nm@));
                    }
                    let ghost before = players@;
                    players.push(nm.clone());
                    scores.push(0);
                    proof {
                        assert(names_of(players@) =~= names_of(before).push(nm@));
                    }
                },
            }
            pi += 1;
        }
        proof {
            assert(gps.take(pn as int) =~= gps);
        }
        let ghost names = distinct_names(gps);

        let mut kills_by_means: Vec<KillCount> = Vec::new();
        let mut mi: usize = 0;
        while mi < MEANS_OF_DEATH_COUNT
            invariant
                mi <= MEANS_OF_DEATH_COUNT,
                kills_by_means@.len() == mi,
                forall|j: int| 0 <= j < mi ==> kills_by_means@[j] == 0i64,
            decreases MEANS_OF_DEATH_COUNT - mi,
        {
            kills_by_means.push(0);
            mi += 1;
        }
        proof {
            assert(counts_of(kills_by_means@) =~= hist_after(game@.kills, 0));
            assert(counts_of(scores@) =~= scores_after(gps, names, game@.kills, 0));
        }

        let mut ki: usize = 0;
        while ki < kn
            invariant
                ki <= kn,
                kn == game@.kills.len(),
                gps == game@.players,
                names == distinct_names(gps),
                names_of(players@) == names,
                scores@.len() == players@.len(),
                counts_of(scores@) == scores_after(gps, names, game@.kills, ki as int),
                kills_by_means@.len() == MEANS_OF_DEATH_COUNT,
                counts_of(kills_by_means@) == hist_after(game@.kills, ki as int),
                forall|j: int| 0 <= j < ki ==> (#[trigger] game@.kills[j]).means
                    < MEANS_OF_DEATH_COUNT,
                first_unknown_means_from(game@.kills, 0) == first_unknown_means_from(
                    game@.kills,
                    ki as int,
                ),
            decreases kn - ki,
        {
            let means = game.kills[ki].means;
            if means >= MEANS_OF_DEATH_COUNT {
                proof {
                    assert(first_unknown_means_from(game@.kills, ki as int) == Some(ki as int));
                    assert(!game@.causes_canonical()) by {
                        assert(game@.kills[ki as int].means >= MEANS_OF_DEATH_COUNT);
                    }
                }
                return Err(Error::UnknownMeansOfDeath(means));
            }
            let ghost kill = game@.kills[ki as int];
            let (pid, up): (PlayerId, bool) = match game.kills[ki].killer {
                Killer::World => (game.kills[ki].target, false),
                Killer::Player(id) => (id, true),
            };
            proof {
                assert((pid, up) == kill_adjust(kill));
            }
            match game.find_player(pid) {
                Some(fp) => {
                    proof {
                        lemma_find_player_some(gps, pid, 0);
                    }
                    let target_name = &game.players[fp].1;
                    proof {
                        assert(gps[fp as int].1 == target_name@);
                    }
                    match find_name(&players, target_name.as_str()) {
                        Some(si) => {
                            let cur = scores[si];
                            let newv: i64 = if up {
                                if cur == i64::MAX {
                                    cur
                                } else {
                                    cur + 1
                                }
                            } else {
                                if cur == i64::MIN {
                                    cur
                                } else {
                                    cur - 1
                                }
                            };
                            let ghost before = scores@;
                            scores.set(si, newv);
                            proof {
                                assert(counts_of(scores@) =~= counts_of(before).update(
                                    si as int,
                                    newv as int,
                                ));
                            }
                        },
                        None => {},
                    }
                },
                None => {},
            }
            let cur = kills_by_means[means];
            let newc: i64 = if cur == i64::MAX {
                cur
            } else {
                cur + 1
            };
            let ghost hbefore = kills_by_means@;
            kills_by_means.set(means, newc);
            proof {
                assert(counts_of(kills_by_means@) =~= counts_of(hbefore).update(
                    means as int,
                    newc as int,
                ));
                assert(counts_of(scores@) =~= scores_after(gps, names, game@.kills, ki + 1));
            }
            ki += 1;
        }

        let mut kill_pairs: Vec<(PlayerName, KillCount)> = Vec::new();
        let ghost final_scores = counts_of(scores@);
        let mut qi: usize = 0;
        while qi < players.len()
            invariant
                qi <= players@.len(),
                scores@.len() == players@.len(),
                final_scores == counts_of(scores@),
                kill_pairs@.len() == qi,
                forall|j: int| 0 <= j < qi ==> (#[trigger] kill_pairs@[j]).0@ == names_of(
                    players@,
                )[j] && kill_pairs@[j].1 == scores@[j],
            decreases players@.len() - qi,
        {
            kill_pairs.push((players[qi].clone(), scores[qi]));
            qi += 1;
        }

        let rep = GameReport { total_kills, players, kills: kill_pairs, kills_by_means };
        proof {
            assert(rep@.players =~= spec_game_report(game@).players);
            assert(rep@.kills =~= spec_game_report(game@).kills);
            assert(rep@.kills_by_means =~= spec_game_report(game@).kills_by_means);
        }
        Ok(rep)
    }
}

/// The dictionary label of the `n`-th completed game, 1-based.
pub fn game_label(n: usize) -> (r: String)
    ensures
        r@ == "game_"@ + text::dec_str(n as nat),
{
    let mut s = String::from_str("game_");
    s.append(text::dec_string(n).as_str());
    s
}

/// A report of the full Quake III: Arena log file.
#[derive(Debug, Clone, PartialEq, Eq)]
pub struct LogReport {
    /// Dictionary of game reports, in the order the games closed.
    pub games: Vec<(GameName, GameReport)>,
}

impl View for LogReport {
    type V = Seq<(Seq<char>, ReportView)>;

    open spec fn view(&self) -> Seq<(Seq<char>, ReportView)> {
        self.games@.map_values(|p: (GameName, GameReport)| (p.0@, p.1@))
    }
}

impl LogReport {
    /// Generates a report of the whole log by draining a parser: games are
    /// labeled `game_1`, `game_2`, ... strictly in the order they closed.
    ///
    /// The pending-game bound is a machine limit: a log never holds more
    /// games than the address space holds bytes.
    pub fn generate(parser: &mut Parser) -> (r: Result<LogReport, Error>)
        requires
            old(parser).wf(),
            old(parser).pending().len() <= usize::MAX,
        ensures
            final(parser).wf(),
            match r {
                Ok(rep) => {
                    &&& final(parser).pending().len() == 0
                    &&& rep@.len() == old(parser).pending().len()
                    &&& forall|i: int| 0 <= i < rep@.len() ==> (#[trigger] rep@[i]).0 == "game_"@
                        + text::dec_str((i + 1) as nat)
                    &&& forall|i: int| 0 <= i < rep@.len() ==> (#[trigger] rep@[i]).1
                        == spec_game_report(old(parser).pending()[i])
                },
                Err(_) => false,
            },
    {
        let ghost orig = parser.pending();
        let mut games: Vec<(GameName, GameReport)> = Vec::new();
        loop
            invariant
                parser.wf(),
                orig == old(parser).pending(),
                orig.len() <= usize::MAX,
                games@.len() <= orig.len(),
                parser.pending() =~= orig.skip(games@.len() as int),
                forall|i: int| 0 <= i < games@.len() ==> (#[trigger] games@[i]).0@ == "game_"@
                    + text::dec_str((i + 1) as nat),
                forall|i: int| 0 <= i < games@.len() ==> (#[trigger] games@[i]).1@
                    == spec_game_report(orig[i]),
            decreases parser.pending().len(),
        {
            let ghost done = games@.len();
            match parser.next_game() {
                None => {
                    proof {
                        assert(orig.skip(done as int).len() == 0);
                        assert(done == orig.len());
                    }
                    let result = LogReport { games };
                    return Ok(result);
                },
                Some(game) => {
                    proof {
                        assert(orig.skip(done as int).len() > 0);
                        assert(orig.skip(done as int)[0] == orig[done as int]);
                        assert(orig.skip(done as int).drop_first() =~= orig.skip(done as int + 1));
                    }
                    let rep = match GameReport::generate(&game) {
                        Ok(rep) => rep,
                        Err(e) => {
                            proof {
                                assert(game@.causes_canonical());
                                assert(false);
                            }
                            return Err(e);
                        },
                    };
                    let label = game_label(games.len() + 1);
                    games.push((label, rep));
                },
            }
        }
    }
}

/// Sum of a sequence of integers.
pub open spec fn sum_ints(s: Seq<int>) -> int
    decreases s.len(),
{
    if s.len() == 0 {
        0
    } else {
        sum_ints(s.drop_last()) + s.last()
    }
}

/// Replacing one element moves the sum by the difference.
proof fn lemma_sum_update(s: Seq<int>, i: int, v: int)
    requires
        0 <= i < s.len(),
    ensures
        sum_ints(s.update(i, v)) == sum_ints(s) - s[i] + v,
    decreases s.len(),
{
    if i == s.len() - 1 {
        assert(s.update(i, v).drop_last() =~= s.drop_last());
        assert(s.update(i, v).last() == v);
    } else {
        lemma_sum_update(s.drop_last(), i, v);
        assert(s.update(i, v).drop_last() =~= s.drop_last().update(i, v));
        assert(s.update(i, v).last() == s.last());
    }
}

/// A sequence of zeroes sums to zero.
proof fn lemma_sum_zeroes(n: nat)
    ensures
        sum_ints(Seq::new(n, |j: int| 0int)) == 0,
    decreases n,
{
    if n > 0 {
        lemma_sum_zeroes((n - 1) as nat);
        assert(Seq::new(n, |j: int| 0int).drop_last() =~= Seq::new((n - 1) as nat, |j: int| 0int));
    }
}

/// After `i` kills with canonical causes, every bucket of the histogram
/// lies between zero and `i`, and the buckets sum to `i`.
proof fn lemma_hist_after_bounds(kills: Seq<Kill>, i: int)
    requires
        0 <= i <= kills.len(),
        i <= i64::MAX,
        forall|j: int| 0 <= j < i ==> (#[trigger] kills[j]).means < MEANS_OF_DEATH_COUNT,
    ensures
        hist_after(kills, i).len() == MEANS_OF_DEATH_COUNT,
        forall|m: int| 0 <= m < MEANS_OF_DEATH_COUNT ==> 0 <= #[trigger] hist_after(kills, i)[m]
            <= i,
        sum_ints(hist_after(kills, i)) == i,
    decreases i,
{
    if i == 0 {
        lemma_sum_zeroes(MEANS_OF_DEATH_COUNT as nat);
    } else {
        lemma_hist_after_bounds(kills, i - 1);
        let h = hist_after(kills, i - 1);
        let m = kills[i - 1].means as int;
        lemma_sum_update(h, m, sat_inc(h[m]));
    }
}

/// After `i` kills, no bucket of the histogram is negative, whatever the
/// causes were.
proof fn lemma_hist_after_nonnegative(kills: Seq<Kill>, i: int)
    requires
        0 <= i,
    ensures
        hist_after(kills, i).len() == MEANS_OF_DEATH_COUNT,
        forall|m: int| 0 <= m < MEANS_OF_DEATH_COUNT ==> #[trigger] hist_after(kills, i)[m] >= 0,
    decreases i,
{
    if i > 0 {
        lemma_hist_after_nonnegative(kills, i - 1);
    }
}

/// Law: a report's total kill count is the length of the game's kill
/// list (stopping at the largest representable count).
pub proof fn lemma_report_counts_all_kills(g: GameView)
    requires
        g.kills.len() <= i64::MAX,
    ensures
        spec_game_report(g).total_kills == g.kills.len(),
{
}

/// Law: every kill lands in exactly one cause bucket: the histogram of a
/// report sums to its total kill count.
pub proof fn lemma_report_total_is_cause_sum(g: GameView)
    requires
        g.causes_canonical(),
        g.kills.len() <= i64::MAX,
    ensures
        sum_ints(spec_game_report(g).kills_by_means) == spec_game_report(g).total_kills,
{
    lemma_hist_after_bounds(g.kills, g.kills.len() as int);
}

/// Law: cause buckets never go negative, though player scores may.
pub proof fn lemma_cause_counts_nonnegative(g: GameView)
    ensures
        forall|m: int| 0 <= m < spec_game_report(g).kills_by_means.len() ==> #[trigger]
        spec_game_report(g).kills_by_means[m] >= 0,
{
    lemma_hist_after_nonnegative(g.kills, g.kills.len() as int);
}

/// Law: report generation is deterministic: reports built twice from the
/// same game value are identical.
pub proof fn lemma_generate_deterministic(g: GameView, r1: ReportView, r2: ReportView)
    requires
        r1 == spec_game_report(g),
        r2 == spec_game_report(g),
    ensures
        r1 == r2,
{
}

} // verus!
