use quake_log_parser::game::{means_from_name, Game, Kill, Killer, PlayerName};
use quake_log_parser::parser::{Event, Parser, RawEvent, State};

const SMALL_LOG: &str = r"  0:00 ------------------------------------------------------------
  0:00 InitGame: \sv_floodProtect\1\sv_maxPing\0\sv_minPing\0\sv_maxRate\10000\sv_minRate\0\sv_hostname\Code Miner Server\g_gametype\0\sv_privateClients\2\sv_maxclients\16\sv_allowDownload\0\dmflags\0\fraglimit\20\timelimit\15\g_maxGameClients\0\capturelimit\8\version\ioq3 1.36 linux-x86_64 Apr 12 2009\protocol\68\mapname\q3dm17\gamename\baseq3\g_needpass\0
 15:00 Exit: Timelimit hit.
 20:34 ClientConnect: 2
 20:34 ClientUserinfoChanged: 2 n\Isgalamido\t\0\model\xian/default\hmodel\xian/default\g_redteam\\g_blueteam\\c1\4\c2\5\hc\100\w\0\l\0\tt\0\tl\0
 20:37 ClientUserinfoChanged: 2 n\Isgalamido\t\0\model\uriel/zael\hmodel\uriel/zael\g_redteam\\g_blueteam\\c1\5\c2\5\hc\100\w\0\l\0\tt\0\tl\0
 20:37 ClientBegin: 2
 20:37 ShutdownGame:
 20:37 ------------------------------------------------------------
  1:47 ------------------------------------------------------------
  1:47 InitGame: \sv_floodProtect\1\sv_maxPing\0\sv_minPing\0\sv_maxRate\10000\sv_minRate\0\sv_hostname\Code Miner Server\g_gametype\0\sv_privateClients\2\sv_maxclients\16\sv_allowDownload\0\bot_minplayers\0\dmflags\0\fraglimit\20\timelimit\15\g_maxGameClients\0\capturelimit\8\version\ioq3 1.36 linux-x86_64 Apr 12 2009\protocol\68\mapname\q3dm17\gamename\baseq3\g_needpass\0
  1:47 ClientConnect: 2
  1:47 ClientUserinfoChanged: 2 n\Dono da Bola\t\0\model\sarge\hmodel\sarge\g_redteam\\g_blueteam\\c1\4\c2\5\hc\95\w\0\l\0\tt\0\tl\0
  1:47 ClientBegin: 2
  1:47 ClientConnect: 3
  1:47 ClientUserinfoChanged: 3 n\Isgalamido\t\0\model\uriel/zael\hmodel\uriel/zael\g_redteam\\g_blueteam\\c1\5\c2\5\hc\100\w\0\l\0\tt\0\tl\0
  1:47 ClientBegin: 3
  1:47 ClientConnect: 4
  1:47 ClientUserinfoChanged: 4 n\Zeh\t\0\model\sarge/default\hmodel\sarge/default\g_redteam\\g_blueteam\\c1\1\c2\5\hc\100\w\0\l\0\tt\0\tl\0
  1:47 ClientBegin: 4
  1:48 Item: 4 ammo_rockets
  1:48 Item: 4 weapon_rocketlauncher
  1:51 Item: 3 item_armor_shard
  1:51 Item: 3 item_armor_shard
  1:51 Item: 3 item_armor_shard
  1:51 Item: 3 item_armor_combat
  1:54 Item: 3 weapon_rocketlauncher
  1:54 Item: 3 ammo_rockets
  1:57 Item: 2 weapon_rocketlauncher
  2:00 Kill: 1022 3 22: <world> killed Isgalamido by MOD_TRIGGER_HURT
  2:02 Item: 3 weapon_rocketlauncher
  2:04 Kill: 1022 2 19: <world> killed Dono da Bola by MOD_FALLING
  2:04 Item: 4 item_armor_body
  2:04 Kill: 1022 3 19: <world> killed Isgalamido by MOD_FALLING
  2:07 Item: 2 weapon_rocketlauncher
  2:11 Kill: 2 4 6: Dono da Bola killed Zeh by MOD_ROCKET
 12:13 ShutdownGame:
";

fn mod_id(name: &str) -> usize {
    means_from_name(name).unwrap()
}

fn expected_games_from_small_log() -> Vec<Game> {
    vec![
        Game {
            players: vec![(2, PlayerName::from("Isgalamido"))],
            kills: Vec::new(),
        },
        Game {
            players: vec![
                (2, PlayerName::from("Dono da Bola")),
                (3, PlayerName::from("Isgalamido")),
                (4, PlayerName::from("Zeh")),
            ],
            kills: vec![
                Kill {
                    killer: Killer::World,
                    target: 3,
                    means: mod_id("MOD_TRIGGER_HURT"),
                },
                Kill {
                    killer: Killer::World,
                    target: 2,
                    means: mod_id("MOD_FALLING"),
                },
                Kill {
                    killer: Killer::World,
                    target: 3,
                    means: mod_id("MOD_FALLING"),
                },
                Kill {
                    killer: Killer::Player(2),
                    target: 4,
                    means: mod_id("MOD_ROCKET"),
                },
            ],
        },
    ]
}

#[test]
fn split_raw_event_easy_case() {
    let line = " 20:34 ClientConnect: 2\n";
    let expected = Some(RawEvent { key: "ClientConnect", raw_data: "2" });
    let actual = RawEvent::from_line(line);
    assert_eq!(expected, actual);
}

#[test]
fn split_raw_event_single_digit_hour() {
    let line = "  1:48 Item: 4 ammo_rockets\n";
    let expected = Some(RawEvent { key: "Item", raw_data: "4 ammo_rockets" });
    let actual = RawEvent::from_line(line);
    assert_eq!(expected, actual);
}

#[test]
fn split_raw_event_filler() {
    let line =
        " 20:37 ------------------------------------------------------------\n";
    let expected = None;
    let actual = RawEvent::from_line(line);
    assert_eq!(expected, actual);
}

#[test]
fn split_raw_event_corrupted_line() {
    let line =
        " 26  0:00 ------------------------------------------------------------\n";
    let expected = None;
    let actual = RawEvent::from_line(line);
    assert_eq!(expected, actual);
}

#[test]
fn parse_init_game() {
    let line = r"  0:00 InitGame: \\capturelimit\\8\\g_maxGameClients\\0\\timelimit\\15\\fraglimit\\20\\dmflags\\0\\sv_allowDownload\\0\\sv_maxclients\\16\\sv_privateClients\\2\\g_gametype\\0\\sv_hostname\\Code Miner Server\\sv_minRate\\0\\sv_maxRate\\10000\\sv_minPing\\0\\sv_maxPing\\0\\sv_floodProtect\\1\\version\\ioq3 1.36 linux-x86_64 Apr 12 2009\\protocol\\68\\mapname\\q3dm17\\gamename\\baseq3\\g_needpass\\0";
    let expected = Some(Event::Init);
    let actual = RawEvent::from_line(line).unwrap().parse();
    assert_eq!(expected, actual);
}

#[test]
fn parse_shutdown_game() {
    let line = " 54:21 ShutdownGame:\n";
    let expected = Some(Event::Shutdown);
    let actual = RawEvent::from_line(line).unwrap().parse();
    assert_eq!(expected, actual);
}

#[test]
fn parse_player_name_changed() {
    let line = r"  0:07 ClientUserinfoChanged: 2 n\Fasano Again\t\0\model\razor/id\hmodel\razor/id\g_redteam\\g_blueteam\\c1\3\c2\5\hc\100\w\0\l\0\tt\0\tl\0";
    let expected = Some(Event::PlayerNameChanged {
        id: 2,
        name: PlayerName::from("Fasano Again"),
    });
    let actual = RawEvent::from_line(line).unwrap().parse();
    assert_eq!(expected, actual);
}

#[test]
fn parse_kill_by_player() {
    let line = "  0:25 Kill: 2 4 6: Oootsimo killed Zeh by MOD_ROCKET\n";
    let expected = Some(Event::Kill {
        killer: Killer::Player(2),
        target: 4,
        means: mod_id("MOD_ROCKET"),
    });
    let actual = RawEvent::from_line(line).unwrap().parse();
    assert_eq!(expected, actual);
}

#[test]
fn parse_kill_by_world() {
    let line = " 15:27 Kill: 1022 5 22: <world> killed Assasinu Credi by \
                MOD_TRIGGER_HURT\n";
    let expected = Some(Event::Kill {
        killer: Killer::World,
        target: 5,
        means: mod_id("MOD_TRIGGER_HURT"),
    });
    let actual = RawEvent::from_line(line).unwrap().parse();
    assert_eq!(expected, actual);
}

#[test]
fn parse_irrelevant() {
    let line = " 15:43 Item: 2 weapon_shotgun\n";
    let expected = None;
    let actual = RawEvent::from_line(line).unwrap().parse();
    assert_eq!(expected, actual);
}

#[test]
fn state_parse_games() {
    let expected = expected_games_from_small_log();

    let mut state = State::default();
    let mut actual_games = Vec::new();
    for line in SMALL_LOG.lines() {
        if let Some(game) = state.process_line(line) {
            actual_games.push(game);
        }
    }
    if let Some(game) = state.finish_game() {
        actual_games.push(game);
    }

    assert_eq!(expected, actual_games);
}

#[test]
fn actual_parse_games() {
    let expected = expected_games_from_small_log();

    let mut parser = Parser::with_bufread(SMALL_LOG);
    let mut actual = Vec::new();
    while let Some(game) = parser.next_game() {
        actual.push(game);
    }

    assert_eq!(expected, actual);
}

#[test]
fn parse_kill_by_world_sentinel_id() {
    let line = " 15:27 Kill: 1022 5 22: somebody killed Assasinu Credi by MOD_TRIGGER_HURT\n";
    let expected = Some(Event::Kill {
        killer: Killer::World,
        target: 5,
        means: mod_id("MOD_TRIGGER_HURT"),
    });
    let actual = RawEvent::from_line(line).unwrap().parse();
    assert_eq!(expected, actual);
}

#[test]
fn parse_kill_numeric_cause() {
    let line = "  0:25 Kill: 2 4 6: Oootsimo killed Zeh\n";
    let expected = Some(Event::Kill {
        killer: Killer::Player(2),
        target: 4,
        means: mod_id("MOD_ROCKET"),
    });
    let actual = RawEvent::from_line(line).unwrap().parse();
    assert_eq!(expected, actual);
}

#[test]
fn parse_kill_unknown_cause_rejected() {
    let line = "  0:25 Kill: 2 4 99: Oootsimo killed Zeh by MOD_SOMETHING_ELSE\n";
    let actual = RawEvent::from_line(line).unwrap().parse();
    assert_eq!(None, actual);
}

#[test]
fn unclosed_game_flushed_at_end_of_input() {
    let log = "  0:00 InitGame: \\fraglimit\\20\n  0:25 Kill: 2 4 6: a killed b by MOD_ROCKET\n";
    let mut parser = Parser::with_bufread(log);
    let mut games = Vec::new();
    while let Some(game) = parser.next_game() {
        games.push(game);
    }
    assert_eq!(games.len(), 1);
    assert_eq!(games[0].kills.len(), 1);
}

#[test]
fn second_init_closes_previous_game() {
    let log = "  0:00 InitGame: \\a\\1\n  0:25 Kill: 2 4 6: a killed b by MOD_ROCKET\n  0:30 InitGame: \\a\\1\n  0:40 ShutdownGame:\n";
    let mut parser = Parser::with_bufread(log);
    let mut games = Vec::new();
    while let Some(game) = parser.next_game() {
        games.push(game);
    }
    assert_eq!(games.len(), 2);
    assert_eq!(games[0].kills.len(), 1);
    assert_eq!(games[1].kills.len(), 0);
}

#[test]
fn records_outside_game_are_ignored() {
    let log = "  0:25 Kill: 2 4 6: a killed b by MOD_ROCKET\n  0:26 ClientUserinfoChanged: 2 n\\Zeh\\t\\0\n  0:40 ShutdownGame:\n";
    let mut parser = Parser::with_bufread(log);
    let mut games = Vec::new();
    while let Some(game) = parser.next_game() {
        games.push(game);
    }
    assert_eq!(games.len(), 0);
}

#[test]
fn name_change_upserts_last_name() {
    let log = "  0:00 InitGame: \\a\\1\n  0:01 ClientUserinfoChanged: 2 n\\First\\t\\0\n  0:02 ClientUserinfoChanged: 2 n\\Second\\t\\0\n  0:40 ShutdownGame:\n";
    let mut parser = Parser::with_bufread(log);
    let game = parser.next_game().unwrap();
    assert_eq!(game.players, vec![(2, PlayerName::from("Second"))]);
    assert_eq!(parser.next_game(), None);
}

#[test]
fn stray_shutdown_is_ignored() {
    let log = "  0:00 ShutdownGame:\n  0:01 ShutdownGame:\n";
    let mut parser = Parser::with_bufread(log);
    assert_eq!(parser.next_game(), None);
}
