use quake_log_parser::error::Error;
use quake_log_parser::game::{
    all_means_of_death, means_from_name, means_name, Game, Kill, Killer, PlayerName,
    MEANS_OF_DEATH_COUNT,
};
use quake_log_parser::parser::Parser;
use quake_log_parser::report::{game_label, GameReport, LogReport};

fn mod_id(name: &str) -> usize {
    means_from_name(name).unwrap()
}

fn game_1() -> Game {
    Game {
        players: vec![(2, PlayerName::from("Isgalamido"))],
        kills: Vec::new(),
    }
}

fn game_2() -> Game {
    Game {
        players: vec![
            (2, PlayerName::from("Dono da Bola")),
            (3, PlayerName::from("Isgalamido")),
            (4, PlayerName::from("Zeh")),
        ],
        kills: vec![
            Kill {
                killer: Killer::World,
                target: 3,
                means: mod_id("MOD_TRIGGER_HURT"),
            },
            Kill {
                killer: Killer::World,
                target: 2,
                means: mod_id("MOD_FALLING"),
            },
            Kill {
                killer: Killer::World,
                target: 3,
                means: mod_id("MOD_FALLING"),
            },
            Kill {
                killer: Killer::Player(2),
                target: 4,
                means: mod_id("MOD_ROCKET"),
            },
        ],
    }
}

fn means_histogram(counts: &[(&str, i64)]) -> Vec<i64> {
    all_means_of_death()
        .iter()
        .map(|means| {
            counts
                .iter()
                .find(|(name, _)| name == means)
                .map(|(_, count)| *count)
                .unwrap_or(0)
        })
        .collect()
}

fn game_report_1() -> GameReport {
    GameReport {
        total_kills: 0,
        players: vec![PlayerName::from("Isgalamido")],
        kills: vec![(PlayerName::from("Isgalamido"), 0)],
        kills_by_means: means_histogram(&[]),
    }
}

fn game_report_2() -> GameReport {
    GameReport {
        total_kills: 4,
        players: vec![
            PlayerName::from("Dono da Bola"),
            PlayerName::from("Isgalamido"),
            PlayerName::from("Zeh"),
        ],
        kills: vec![
            (PlayerName::from("Dono da Bola"), 0),
            (PlayerName::from("Isgalamido"), -2),
            (PlayerName::from("Zeh"), 0),
        ],
        kills_by_means: means_histogram(&[
            ("MOD_TRIGGER_HURT", 1),
            ("MOD_FALLING", 2),
            ("MOD_ROCKET", 1),
        ]),
    }
}

#[test]
fn generate_game_report_1() {
    let expected = game_report_1();
    let actual = GameReport::generate(&game_1()).unwrap();
    assert_eq!(expected, actual);
}

#[test]
fn generate_game_report_2() {
    let expected = game_report_2();
    let actual = GameReport::generate(&game_2()).unwrap();
    assert_eq!(expected, actual);
}

#[test]
fn total_kills_matches_kill_list_length() {
    let report = GameReport::generate(&game_2()).unwrap();
    assert_eq!(report.total_kills, game_2().kills.len() as i64);
}

#[test]
fn cause_histogram_sums_to_total_kills() {
    let report = GameReport::generate(&game_2()).unwrap();
    let sum: i64 = report.kills_by_means.iter().sum();
    assert_eq!(sum, report.total_kills);
}

#[test]
fn scores_may_go_negative_but_cause_counts_do_not() {
    let report = GameReport::generate(&game_2()).unwrap();
    assert!(report.kills.iter().any(|(_, count)| *count < 0));
    assert!(report.kills_by_means.iter().all(|count| *count >= 0));
}

#[test]
fn two_matches_with_exact_expected_scores() {
    // Match A holds one player and no kills; in match B the world kills
    // the first player twice and the second player once, and the second
    // player kills the third with a rocket.
    let match_a = Game {
        players: vec![(7, PlayerName::from("P1"))],
        kills: Vec::new(),
    };
    let match_b = Game {
        players: vec![
            (1, PlayerName::from("P1")),
            (2, PlayerName::from("P2")),
            (3, PlayerName::from("P3")),
        ],
        kills: vec![
            Kill {
                killer: Killer::World,
                target: 1,
                means: mod_id("MOD_FALLING"),
            },
            Kill {
                killer: Killer::World,
                target: 2,
                means: mod_id("MOD_FALLING"),
            },
            Kill {
                killer: Killer::World,
                target: 1,
                means: mod_id("MOD_TRIGGER_HURT"),
            },
            Kill {
                killer: Killer::Player(2),
                target: 3,
                means: mod_id("MOD_ROCKET"),
            },
        ],
    };

    let report_a = GameReport::generate(&match_a).unwrap();
    assert_eq!(report_a.total_kills, 0);
    assert_eq!(report_a.players, vec![PlayerName::from("P1")]);
    assert_eq!(report_a.kills, vec![(PlayerName::from("P1"), 0)]);
    assert!(report_a.kills_by_means.iter().all(|count| *count == 0));

    let report_b = GameReport::generate(&match_b).unwrap();
    assert_eq!(report_b.total_kills, 4);
    assert_eq!(
        report_b.kills,
        vec![
            (PlayerName::from("P1"), -2),
            (PlayerName::from("P2"), 0),
            (PlayerName::from("P3"), 0),
        ]
    );
    assert_eq!(
        report_b.kills_by_means,
        means_histogram(&[
            ("MOD_FALLING", 2),
            ("MOD_TRIGGER_HURT", 1),
            ("MOD_ROCKET", 1),
        ])
    );
}

#[test]
fn aggregation_is_deterministic() {
    let game = game_2();
    let first = GameReport::generate(&game).unwrap();
    let second = GameReport::generate(&game).unwrap();
    assert_eq!(first, second);
}

#[test]
fn unknown_means_aborts_report() {
    let game = Game {
        players: vec![(2, PlayerName::from("Zeh"))],
        kills: vec![Kill { killer: Killer::Player(2), target: 2, means: 99 }],
    };
    let actual = GameReport::generate(&game);
    assert_eq!(actual, Err(Error::UnknownMeansOfDeath(99)));
}

#[test]
fn dangling_player_reference_skips_score() {
    let game = Game {
        players: vec![(2, PlayerName::from("Zeh"))],
        kills: vec![Kill {
            killer: Killer::Player(9),
            target: 2,
            means: mod_id("MOD_ROCKET"),
        }],
    };
    let report = GameReport::generate(&game).unwrap();
    assert_eq!(report.total_kills, 1);
    assert_eq!(report.kills, vec![(PlayerName::from("Zeh"), 0)]);
    assert_eq!(report.kills_by_means[mod_id("MOD_ROCKET")], 1);
}

#[test]
fn duplicate_names_share_one_score() {
    let game = Game {
        players: vec![
            (1, PlayerName::from("Twin")),
            (2, PlayerName::from("Twin")),
        ],
        kills: vec![Kill {
            killer: Killer::Player(2),
            target: 1,
            means: mod_id("MOD_GAUNTLET"),
        }],
    };
    let report = GameReport::generate(&game).unwrap();
    assert_eq!(report.players, vec![PlayerName::from("Twin")]);
    assert_eq!(report.kills, vec![(PlayerName::from("Twin"), 1)]);
}

#[test]
fn log_report_labels_games_in_closing_order() {
    let log = "  0:00 InitGame: \\a\\1\n  0:10 ShutdownGame:\n  0:20 InitGame: \\a\\1\n  0:25 Kill: 2 4 6: a killed b by MOD_ROCKET\n  0:30 InitGame: \\a\\1\n";
    let mut parser = Parser::with_bufread(log);
    let report = LogReport::generate(&mut parser).unwrap();
    assert_eq!(report.games.len(), 3);
    assert_eq!(report.games[0].0, "game_1");
    assert_eq!(report.games[1].0, "game_2");
    assert_eq!(report.games[2].0, "game_3");
    assert_eq!(report.games[1].1.total_kills, 1);
    assert_eq!(report.games[2].1.total_kills, 0);
}

#[test]
fn log_report_on_empty_log_is_empty() {
    let mut parser = Parser::with_bufread("");
    let report = LogReport::generate(&mut parser).unwrap();
    assert_eq!(report.games.len(), 0);
}

#[test]
fn game_labels_render_in_decimal() {
    assert_eq!(game_label(1), "game_1");
    assert_eq!(game_label(12), "game_12");
    assert_eq!(game_label(305), "game_305");
}

#[test]
fn canonical_means_table_is_complete() {
    let all = all_means_of_death();
    assert_eq!(all.len(), MEANS_OF_DEATH_COUNT);
    assert_eq!(all[0], "MOD_UNKNOWN");
    assert_eq!(all[6], "MOD_ROCKET");
    assert_eq!(all[22], "MOD_TRIGGER_HURT");
    assert_eq!(all[28], "MOD_GRAPPLE");
    for (index, name) in all.iter().enumerate() {
        assert_eq!(means_from_name(name), Some(index));
        assert_eq!(means_name(index), *name);
    }
    assert_eq!(means_from_name("MOD_SOMETHING_ELSE"), None);
}
