//! Verified Quake III: Arena log parsing: line tokenizing, event decoding,
//! the match state machine, and a walker that turns a whole log text into a
//! lazy sequence of completed games.

use vstd::prelude::*;
use vstd::string::StrSliceExecFns;
use crate::game::{
    Game, GameView, Kill, Killer, MeansOfDeath, PlayerId, PlayerName, find_player_from,
    means_from_name, spec_means_from_name, MEANS_OF_DEATH_COUNT, WORLD_KILLER_ID,
};
use crate::text;

verus! {

/// Key and payload of a log line: the text after the first letter, split at
/// the first colon and trimmed. `None` for filler or truncated lines.
pub open spec fn spec_tokenize(line: Seq<char>) -> Option<(Seq<char>, Seq<char>)> {
    match text::first_alpha_from(line, 0) {
        None => None,
        Some(a) => {
            let rest = line.subrange(a, line.len() as int);
            match text::first_char_from(rest, ':', 0) {
                None => None,
                Some(c) => Some(
                    (
                        text::trimmed(rest.subrange(0, c)),
                        text::trimmed(rest.subrange(c + 1, rest.len() as int)),
                    ),
                ),
            }
        },
    }
}

/// Raw structure for an event that occurs in the log file.
#[derive(Debug, Clone, Copy, PartialEq, Eq)]
pub struct RawEvent<'line> {
    /// Key of the event, such as "InitGame".
    pub key: &'line str,
    /// Raw representation of the event's payload.
    pub raw_data: &'line str,
}

/// Mathematical model of a structured event.
pub enum EventView {
    /// Game initialization.
    Init,
    /// Game shutdown.
    Shutdown,
    /// The player with the given ID now uses the given name.
    PlayerNameChanged { id: PlayerId, name: Seq<char> },
    /// Someone (target) was killed by the killer with the given means of
    /// death.
    Kill { killer: Killer, target: PlayerId, means: MeansOfDeath },
}

/// A structured event representation.
#[derive(Debug, Clone, PartialEq, Eq)]
pub enum Event {
    /// Game initialization.
    Init,
    /// Game shutdown.
    Shutdown,
    /// The player with the given ID now uses the given name.
    PlayerNameChanged { id: PlayerId, name: PlayerName },
    /// Someone (target) was killed by the killer with the given means of
    /// death.
    Kill { killer: Killer, target: PlayerId, means: MeansOfDeath },
}

impl View for Event {
    type V = EventView;

    open spec fn view(&self) -> EventView {
        match self {
            Event::Init => EventView::Init,
            Event::Shutdown => EventView::Shutdown,
            Event::PlayerNameChanged { id, name } => EventView::PlayerNameChanged {
                id: *id,
                name: name@,
            },
            Event::Kill { killer, target, means } => EventView::Kill {
                killer: *killer,
                target: *target,
                means: *means,
            },
        }
    }
}

/// The name-change event denoted by a `ClientUserinfoChanged` payload, if
/// any: a leading integer id, then the name between the `n\` marker and the
/// next backslash.
pub open spec fn spec_parse_name_change(data: Seq<char>) -> Option<EventView> {
    let d = text::trimmed(data);
    match text::first_char_from(d, ' ', 0) {
        None => None,
        Some(sp) => {
            let id_str = text::trimmed(d.subrange(0, sp));
            let tail = d.subrange(sp + 1, d.len() as int);
            match text::spec_parse_u32(id_str) {
                None => None,
                Some(id) => match text::first_match_from(tail, "n\\"@, 0) {
                    None => None,
                    Some(p) => {
                        let name_trailing = tail.subrange(p + 2, tail.len() as int);
                        let name = match text::first_char_from(name_trailing, '\\', 0) {
                            None => name_trailing,
                            Some(q) => name_trailing.subrange(0, q),
                        };
                        Some(EventView::PlayerNameChanged { id, name })
                    },
                },
            }
        },
    }
}

/// The kill event denoted by a `Kill` payload, if any: killer and target
/// tokens, a cause token before the colon, and free text after it. The
/// killer is the world when the free text says so or when the killer token
/// is the world's sentinel id. The cause resolves by name after the last
/// `by ` marker, or, failing that, by the cause token as an index into the
/// canonical table.
pub open spec fn spec_parse_kill(data: Seq<char>) -> Option<EventView> {
    let d = text::trimmed(data);
    match text::first_char_from(d, ' ', 0) {
        None => None,
        Some(sp1) => {
            let killer_str = d.subrange(0, sp1);
            let t1 = text::trimmed(d.subrange(sp1 + 1, d.len() as int));
            match text::first_char_from(t1, ' ', 0) {
                None => None,
                Some(sp2) => {
                    let target_str = t1.subrange(0, sp2);
                    let t2 = text::trimmed(t1.subrange(sp2 + 1, t1.len() as int));
                    match text::first_char_from(t2, ':', 0) {
                        None => None,
                        Some(colon) => {
                            let cause_tok = t2.subrange(0, colon);
                            let ft = text::trimmed(t2.subrange(colon + 1, t2.len() as int));
                            match text::spec_parse_u32(text::trimmed(target_str)) {
                                None => None,
                                Some(target) => spec_parse_kill_rest(killer_str, cause_tok, ft, target),
                            }
                        },
                    }
                },
            }
        },
    }
}

/// Killer and cause resolution for a `Kill` payload already split into its
/// parts; see [`spec_parse_kill`].
pub open spec fn spec_parse_kill_rest(
    killer_str: Seq<char>,
    cause_tok: Seq<char>,
    ft: Seq<char>,
    target: PlayerId,
) -> Option<EventView> {
    let killer_opt = if text::matches_at(ft, "<world> killed"@, 0) {
        Some(Killer::World)
    } else {
        match text::spec_parse_u32(text::trimmed(killer_str)) {
            None => None,
            Some(k) => if k == WORLD_KILLER_ID {
                Some(Killer::World)
            } else {
                Some(Killer::Player(k))
            },
        }
    };
    match killer_opt {
        None => None,
        Some(killer) => {
            let by_name = match text::last_match_before(ft, "by "@, ft.len() - "by "@.len()) {
                None => None,
                Some(b) => spec_means_from_name(
                    text::trimmed(ft.subrange(b + 3, ft.len() as int)),
                ),
            };
            match by_name {
                Some(means) => Some(EventView::Kill { killer, target, means }),
                None => match text::spec_parse_u32(text::trimmed(cause_tok)) {
                    None => None,
                    Some(ci) => if ci < MEANS_OF_DEATH_COUNT as u32 {
                        Some(EventView::Kill { killer, target, means: ci as usize })
                    } else {
                        None
                    },
                },
            }
        },
    }
}

/// The structured event denoted by a tokenized line, if any.
pub open spec fn spec_parse_event(key: Seq<char>, data: Seq<char>) -> Option<EventView> {
    if key == "InitGame"@ {
        Some(EventView::Init)
    } else if key == "ShutdownGame"@ {
        Some(EventView::Shutdown)
    } else if key == "ClientUserinfoChanged"@ {
        spec_parse_name_change(data)
    } else if key == "Kill"@ {
        spec_parse_kill(data)
    } else {
        None
    }
}

impl<'line> RawEvent<'line> {
    /// Tries to split key and data from a line of the file. If this line
    /// does not represent an event or is not valid for an event, `None` is
    /// returned.
    pub fn from_line(line: &'line str) -> (r: Option<RawEvent<'line>>)
        ensures
            match r {
                Some(ev) => spec_tokenize(line@) == Some((ev.key@, ev.raw_data@)),
                None => spec_tokenize(line@) is None,
            },
    {
        let n = line.unicode_len();
        let a = match text::find_alpha(line) {
            Some(a) => a,
            None => {
                return None;
            },
        };
        let rest = line.substring_char(a, n);
        let c = match text::find_char(rest, ':') {
            Some(c) => c,
            None => {
                return None;
            },
        };
        let rn = rest.unicode_len();
        let key = text::trim(rest.substring_char(0, c));
        let raw_data = text::trim(rest.substring_char(c + 1, rn));
        Some(RawEvent { key, raw_data })
    }

    /// Parses the raw event representation into a structured event. If the
    /// event key represents an unused event, it is ignored; if the event
    /// data does not seem to be valid, it is ignored as well (ignored =
    /// returns `None`).
    pub fn parse(self) -> (r: Option<Event>)
        ensures
            match r {
                Some(ev) => spec_parse_event(self.key@, self.raw_data@) == Some(ev@) && (ev@ matches EventView::Kill { means, .. } ==> means
                    < MEANS_OF_DEATH_COUNT),
                None => spec_parse_event(self.key@, self.raw_data@) is None,
            },
    {
        if text::str_eq(self.key, "InitGame") {
            Some(Event::Init)
        } else if text::str_eq(self.key, "ShutdownGame") {
            Some(Event::Shutdown)
        } else if text::str_eq(self.key, "ClientUserinfoChanged") {
            self.parse_name_change()
        } else if text::str_eq(self.key, "Kill") {
            self.parse_kill()
        } else {
            None
        }
    }

    /// Decodes the payload of a `ClientUserinfoChanged` event.
    fn parse_name_change(self) -> (r: Option<Event>)
        ensures
            match r {
                Some(ev) => spec_parse_name_change(self.raw_data@) == Some(ev@),
                None => spec_parse_name_change(self.raw_data@) is None,
            },
    {
        let data = text::trim(self.raw_data);
        let dn = data.unicode_len();
        let sp = match text::find_char(data, ' ') {
            Some(i) => i,
            None => {
                return None;
            },
        };
        let id_str = text::trim(data.substring_char(0, sp));
        let id = match text::parse_u32(id_str) {
            Some(v) => v,
            None => {
                return None;
            },
        };
        let tail = data.substring_char(sp + 1, dn);
        let tn = tail.unicode_len();
        let p = match text::find_str(tail, "n\\") {
            Some(p) => p,
            None => {
                return None;
            },
        };
        proof {
            reveal_strlit("n\\");
        }
        let name_trailing = tail.substring_char(p + 2, tn);
        let name = match text::find_char(name_trailing, '\\') {
            Some(q) => name_trailing.substring_char(0, q),
            None => name_trailing,
        };
        Some(Event::PlayerNameChanged { id, name: name.to_owned() })
    }

    /// Decodes the payload of a `Kill` event.
    fn parse_kill(self) -> (r: Option<Event>)
        ensures
            match r {
                Some(ev) => spec_parse_kill(self.raw_data@) == Some(ev@) && (ev@ matches EventView::Kill { means, .. } ==> means
                    < MEANS_OF_DEATH_COUNT),
                None => spec_parse_kill(self.raw_data@) is None,
            },
    {
        let data = text::trim(self.raw_data);
        let dn = data.unicode_len();
        let sp1 = match text::find_char(data, ' ') {
            Some(i) => i,
            None => {
                return None;
            },
        };
        let killer_str = data.substring_char(0, sp1);
        let t1 = text::trim(data.substring_char(sp1 + 1, dn));
        let t1n = t1.unicode_len();
        let sp2 = match text::find_char(t1, ' ') {
            Some(i) => i,
            None => {
                return None;
            },
        };
        let target_str = t1.substring_char(0, sp2);
        let t2 = text::trim(t1.substring_char(sp2 + 1, t1n));
        let t2n = t2.unicode_len();
        let colon = match text::find_char(t2, ':') {
            Some(i) => i,
            None => {
                return None;
            },
        };
        let cause_tok = t2.substring_char(0, colon);
        let ft = text::trim(t2.substring_char(colon + 1, t2n));
        let ftn = ft.unicode_len();
        let target = match text::parse_u32(text::trim(target_str)) {
            Some(v) => v,
            None => {
                return None;
            },
        };
        let killer = if text::starts_with_str(ft, "<world> killed") {
            Killer::World
        } else {
            let k = match text::parse_u32(text::trim(killer_str)) {
                Some(v) => v,
                None => {
                    return None;
                },
            };
            if k == WORLD_KILLER_ID {
                Killer::World
            } else {
                Killer::Player(k)
            }
        };
        let by_name = match text::rfind_str(ft, "by ") {
            Some(b) => {
                proof {
                    reveal_strlit("by ");
                }
                let nm = text::trim(ft.substring_char(b + 3, ftn));
                means_from_name(nm)
            },
            None => None,
        };
        let means = match by_name {
            Some(m) => m,
            None => {
                let ci = match text::parse_u32(text::trim(cause_tok)) {
                    Some(v) => v,
                    None => {
                        return None;
                    },
                };
                if ci < MEANS_OF_DEATH_COUNT as u32 {
                    ci as usize
                } else {
                    return None;
                }
            },
        };
        Some(Event::Kill { killer, target, means })
    }
}

/// Mathematical model of the parser state.
pub enum StateView {
    /// No game currently active.
    NoGame,
    /// A game is currently active and will eventually be yielded.
    InGame(GameView),
}

impl StateView {
    /// The structural invariant of every state the machine reaches from
    /// `NoGame` by decoded events.
    pub open spec fn inv(self) -> bool {
        match self {
            StateView::NoGame => true,
            StateView::InGame(g) => g.inv(),
        }
    }
}

/// State of the parser.
#[derive(Debug, Clone)]
pub enum State {
    /// No game currently active.
    NoGame,
    /// A game is currently active and will eventually be yielded.
    InGame(Game),
}

impl View for State {
    type V = StateView;

    open spec fn view(&self) -> StateView {
        match self {
            State::NoGame => StateView::NoGame,
            State::InGame(g) => StateView::InGame(g@),
        }
    }
}

/// The game a state gives up when it is closed, if any.
pub open spec fn spec_emitted_game(s: StateView) -> Option<GameView> {
    match s {
        StateView::NoGame => None,
        StateView::InGame(g) => Some(g),
    }
}

/// Upserts a player name into the open game; no-op outside a game.
pub open spec fn spec_change_name(s: StateView, id: PlayerId, name: Seq<char>) -> StateView {
    match s {
        StateView::NoGame => s,
        StateView::InGame(g) => StateView::InGame(
            GameView {
                players: match find_player_from(g.players, id, 0) {
                    Some(i) => g.players.update(i, (id, name)),
                    None => g.players.push((id, name)),
                },
                kills: g.kills,
            },
        ),
    }
}

/// Appends a kill to the open game; no-op outside a game.
pub open spec fn spec_add_kill(
    s: StateView,
    killer: Killer,
    target: PlayerId,
    means: MeansOfDeath,
) -> StateView {
    match s {
        StateView::NoGame => s,
        StateView::InGame(g) => StateView::InGame(
            GameView { players: g.players, kills: g.kills.push(Kill { killer, target, means }) },
        ),
    }
}

/// One transition of the match state machine: the state after the event,
/// and the game emitted by it, if any.
pub open spec fn spec_step(s: StateView, ev: EventView) -> (StateView, Option<GameView>) {
    match ev {
        EventView::Init => (StateView::InGame(GameView::empty()), spec_emitted_game(s)),
        EventView::Shutdown => (StateView::NoGame, spec_emitted_game(s)),
        EventView::PlayerNameChanged { id, name } => (spec_change_name(s, id, name), None),
        EventView::Kill { killer, target, means } => (
            spec_add_kill(s, killer, target, means),
            None,
        ),
    }
}

/// The structured event denoted by a whole log line, if any.
pub open spec fn spec_decode(line: Seq<char>) -> Option<EventView> {
    match spec_tokenize(line) {
        None => None,
        Some(kd) => spec_parse_event(kd.0, kd.1),
    }
}

/// The state and emission after feeding one log line: lines that decode to
/// no event leave the state alone.
pub open spec fn spec_process_line(s: StateView, line: Seq<char>) -> (StateView, Option<
    GameView,
>) {
    match spec_decode(line) {
        None => (s, None),
        Some(ev) => spec_step(s, ev),
    }
}

/// The view of an optionally emitted game.
pub open spec fn opt_game_view(r: Option<Game>) -> Option<GameView> {
    match r {
        Some(g) => Some(g@),
        None => None,
    }
}

impl Default for State {
    /// The default initial state, with no game active.
    fn default() -> (r: Self)
        ensures
            r@ == StateView::NoGame,
    {
        State::NoGame
    }
}

impl State {
    /// Processes a line from the file, reacting to it.
    pub fn process_line(&mut self, line: &str) -> (r: Option<Game>)
        ensures
            final(self)@ == spec_process_line(old(self)@, line@).0,
            opt_game_view(r) == spec_process_line(old(self)@, line@).1,
            old(self)@.inv() ==> final(self)@.inv(),
            old(self)@.inv() ==> (opt_game_view(r) matches Some(g) ==> g.inv()),
    {
        let raw = match RawEvent::from_line(line) {
            Some(raw) => raw,
            None => {
                return None;
            },
        };
        let ev = match raw.parse() {
            Some(e) => e,
            None => {
                return None;
            },
        };
        match ev {
            Event::Init => {
                let maybe_game = self.finish_game();
                self.start_game();
                maybe_game
            },
            Event::Shutdown => self.finish_game(),
            Event::PlayerNameChanged { id, name } => {
                self.change_player_name(id, name);
                None
            },
            Event::Kill { killer, target, means } => {
                self.kill(killer, target, means);
                None
            },
        }
    }

    /// Finishes the current game, if any. This will return the game and
    /// change the state to `NoGame`.
    pub fn finish_game(&mut self) -> (r: Option<Game>)
        ensures
            final(self)@ == StateView::NoGame,
            opt_game_view(r) == spec_emitted_game(old(self)@),
    {
        let mut prev = State::NoGame;
        core::mem::swap(self, &mut prev);
        match prev {
            State::InGame(game) => Some(game),
            State::NoGame => None,
        }
    }

    /// Starts a new empty game as the current state.
    pub fn start_game(&mut self)
        ensures
            final(self)@ == StateView::InGame(GameView::empty()),
    {
        *self = State::InGame(Game::default());
    }

    /// Reacts to the event of a player changing their name. If the player
    /// was not accounted for yet, an entry for them is created.
    pub fn change_player_name(&mut self, id: PlayerId, name: PlayerName)
        ensures
            final(self)@ == spec_change_name(old(self)@, id, name@),
            old(self)@.inv() ==> final(self)@.inv(),
    {
        let mut cur = State::NoGame;
        core::mem::swap(self, &mut cur);
        match cur {
            State::InGame(mut game) => {
                let ghost old_players = game@.players;
                match game.find_player(id) {
                    Some(i) => {
                        proof {
                            crate::game::lemma_find_player_some(old_players, id, 0);
                        }
                        game.players.set(i, (id, name));
                        proof {
                            assert(game@.players =~= old_players.update(i as int, (id, name@)));
                        }
                    },
                    None => {
                        proof {
                            crate::game::lemma_find_player_none(old_players, id, 0);
                        }
                        game.players.push((id, name));
                        proof {
                            assert(game@.players =~= old_players.push((id, name@)));
                        }
                    },
                }
                *self = State::InGame(game);
            },
            State::NoGame => {
                *self = State::NoGame;
            },
        }
    }

    /// Reacts to a `Kill` event by pushing it into the kill list.
    pub fn kill(&mut self, killer: Killer, target: PlayerId, means: MeansOfDeath)
        ensures
            final(self)@ == spec_add_kill(old(self)@, killer, target, means),
            old(self)@.inv() && means < MEANS_OF_DEATH_COUNT ==> final(self)@.inv(),
    {
        let mut cur = State::NoGame;
        core::mem::swap(self, &mut cur);
        match cur {
            State::InGame(mut game) => {
                game.kills.push(Kill { killer, target, means });
                *self = State::InGame(game);
            },
            State::NoGame => {
                *self = State::NoGame;
            },
        }
    }
}

/// The lines of a log text, split at newline characters; a trailing
/// newline does not open an empty final line.
pub open spec fn split_lines(s: Seq<char>) -> Seq<Seq<char>>
    decreases s.len(),
    via split_lines_decreases
{
    if s.len() == 0 {
        Seq::empty()
    } else {
        match text::first_char_from(s, '\n', 0) {
            None => seq![s],
            Some(i) => seq![s.subrange(0, i)] + split_lines(s.subrange(i + 1, s.len() as int)),
        }
    }
}

#[via_fn]
proof fn split_lines_decreases(s: Seq<char>) {
    if s.len() != 0 && text::first_char_from(s, '\n', 0) is Some {
        text::lemma_first_char_some(s, '\n', 0);
    }
}

/// The games a run of the match state machine emits when fed `lines` and
/// then the end of the input, starting from state `s`: an open game is
/// flushed once when the input ends.
pub open spec fn spec_emitted(s: StateView, lines: Seq<Seq<char>>) -> Seq<GameView>
    decreases lines.len(),
{
    if lines.len() == 0 {
        match s {
            StateView::NoGame => Seq::empty(),
            StateView::InGame(g) => seq![g],
        }
    } else {
        let step = spec_process_line(s, lines[0]);
        (match step.1 {
            Some(g) => seq![g],
            None => Seq::empty(),
        }) + spec_emitted(step.0, lines.drop_first())
    }
}

/// Law: a game opened by `InitGame` but never explicitly closed by
/// `ShutdownGame` is still emitted, once, when the input ends.
pub proof fn lemma_open_game_flushed_at_end(g: GameView)
    ensures
        spec_emitted(StateView::InGame(g), Seq::empty()) == seq![g],
{
}

/// Law: a second `InitGame` without an intervening `ShutdownGame` closes
/// the previous game before opening the new one.
pub proof fn lemma_init_closes_open_game(g: GameView)
    ensures
        spec_step(StateView::InGame(g), EventView::Init) == (
            StateView::InGame(GameView::empty()),
            Some(g),
        ),
{
}

/// Law: kill and name-change events with no open game are ignored: the
/// state stays idle and nothing is emitted.
pub proof fn lemma_events_ignored_outside_game(ev: EventView)
    requires
        ev matches EventView::PlayerNameChanged { .. } || ev matches EventView::Kill { .. },
    ensures
        spec_step(StateView::NoGame, ev) == (StateView::NoGame, None::<GameView>),
{
}

/// Parser of a Quake III: Arena log. It walks the log text line by line,
/// and whenever a game is finished, it is yielded through [`Parser::next_game`].
#[derive(Debug)]
pub struct Parser<'log> {
    /// The log text the games are read from.
    pub reader: &'log str,
    /// Position of the next unread line.
    pub pos: usize,
    /// Parser state, fed with lines from the reader.
    pub state: State,
}

impl<'log> Parser<'log> {
    /// The positions and state a parser keeps are consistent.
    pub open spec fn wf(self) -> bool {
        self.pos <= self.reader@.len() && self.state@.inv()
    }

    /// The games still to come out of this parser.
    pub open spec fn pending(self) -> Seq<GameView> {
        spec_emitted(self.state@, split_lines(self.reader@.skip(self.pos as int)))
    }

    /// Creates the parser from an in-memory log text (typically the
    /// buffered contents of a log file).
    pub fn with_bufread(reader: &'log str) -> (r: Parser<'log>)
        ensures
            r.wf(),
            r.pending() == spec_emitted(StateView::NoGame, split_lines(reader@)),
    {
        let r = Parser { reader, pos: 0, state: State::NoGame };
        proof {
            assert(reader@.skip(0) =~= reader@);
        }
        r
    }

    /// Reads the next line off the log text and returns it; `None` once
    /// the end is reached.
    pub fn read_line(&mut self) -> (r: Option<&'log str>)
        requires
            old(self).wf(),
        ensures
            final(self).wf(),
            final(self).state == old(self).state,
            final(self).reader == old(self).reader,
            match r {
                Some(line) => {
                    &&& old(self).pos < final(self).pos
                    &&& split_lines(old(self).reader@.skip(old(self).pos as int)) == seq![line@]
                        + split_lines(final(self).reader@.skip(final(self).pos as int))
                },
                None => final(self).pos == old(self).pos && split_lines(
                    old(self).reader@.skip(old(self).pos as int),
                ).len() == 0,
            },
    {
        let n = self.reader.unicode_len();
        if self.pos == n {
            proof {
                assert(self.reader@.skip(self.pos as int) =~= Seq::<char>::empty());
            }
            return None;
        }
        let ghost whole = self.reader@.skip(self.pos as int);
        let rest = self.reader.substring_char(self.pos, n);
        proof {
            assert(rest@ =~= whole);
        }
        match text::find_char(rest, '\n') {
            Some(k) => {
                let line = rest.substring_char(0, k);
                let newpos = self.pos + k + 1;
                proof {
                    assert(rest@.subrange(k + 1, rest@.len() as int) =~= self.reader@.skip(
                        newpos as int,
                    ));
                }
                self.pos = newpos;
                Some(line)
            },
            None => {
                let line = rest;
                self.pos = n;
                proof {
                    assert(self.reader@.skip(n as int) =~= Seq::<char>::empty());
                    assert(seq![line@] + split_lines(Seq::<char>::empty()) =~= seq![line@]);
                }
                Some(line)
            },
        }
    }

    /// Feeds one line to the match state machine. If a game is finished
    /// now, it is returned.
    pub fn process_line(&mut self, line: &str) -> (r: Option<Game>)
        ensures
            final(self).state@ == spec_process_line(old(self).state@, line@).0,
            opt_game_view(r) == spec_process_line(old(self).state@, line@).1,
            final(self).reader == old(self).reader,
            final(self).pos == old(self).pos,
            old(self).state@.inv() ==> final(self).state@.inv(),
            old(self).state@.inv() ==> (opt_game_view(r) matches Some(g) ==> g.inv()),
    {
        self.state.process_line(line)
    }

    /// Finishes the parser when the input reaches its end. If a game was
    /// active, it is returned.
    pub fn finish(&mut self) -> (r: Option<Game>)
        ensures
            final(self).state@ == StateView::NoGame,
            opt_game_view(r) == spec_emitted_game(old(self).state@),
            final(self).reader == old(self).reader,
            final(self).pos == old(self).pos,
    {
        self.state.finish_game()
    }

    /// Yields the next completed game, or `None` once the log is over.
    pub fn next_game(&mut self) -> (r: Option<Game>)
        requires
            old(self).wf(),
        ensures
            final(self).wf(),
            match r {
                Some(g) => old(self).pending() == seq![g@] + final(self).pending() && g@.inv(),
                None => old(self).pending().len() == 0 && final(self).pending().len() == 0,
            },
    {
        let ghost orig = self.pending();
        loop
            invariant
                self.wf(),
                self.pending() == orig,
                orig == old(self).pending(),
            decreases self.reader@.len() - self.pos,
        {
            let ghost lines_before = split_lines(self.reader@.skip(self.pos as int));
            match self.read_line() {
                None => {
                    let r = self.finish();
                    proof {
                        assert(split_lines(self.reader@.skip(self.pos as int)).len() == 0);
                        assert(split_lines(self.reader@.skip(self.pos as int))
                            =~= Seq::<Seq<char>>::empty());
                        if r is Some {
                            assert(orig =~= seq![r->0@] + self.pending());
                        }
                    }
                    return r;
                },
                Some(line) => {
                    let ghost lines_after = split_lines(self.reader@.skip(self.pos as int));
                    let ghost st = self.state@;
                    let emitted = self.process_line(line);
                    proof {
                        assert(lines_before.drop_first() =~= lines_after);
                        assert(lines_before[0] == line@);
                    }
                    match emitted {
                        Some(game) => {
                            proof {
                                assert(orig =~= seq![game@] + self.pending());
                            }
                            return Some(game);
                        },
                        None => {
                            proof {
                                assert(self.pending() =~= orig);
                            }
                        },
                    }
                },
            }
        }
    }
}

} // verus!
