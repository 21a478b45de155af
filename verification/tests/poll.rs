use discord_playerlist::health::{probe, STALL_MINUTES};
use discord_playerlist::paginate::paginate;
use discord_playerlist::poll::{liveness_after, prepare, CyclePhase, CycleStep, POLL_INTERVAL};
use discord_playerlist::reconcile::{ReconcileMode, SlotAction, SlotReconciler};
use discord_playerlist::render::RenderedContent;
use discord_playerlist::source::FetchError;
use discord_playerlist::structs::bf4_player_list::DetailedServerInfo;
use discord_playerlist::structs::config::Games;
use discord_playerlist::structs::player_list::{GamePlayer, GameTeam, PlayerList, ServerInfo};
use discord_playerlist::structs::seeder_player_list::{SeederPlayerList, SeederServerInfo, SeederServerTeam};
use discord_playerlist::to_table::bf4_player_list;

const NOW: i64 = 1_700_000_000;

fn player(id: u64, slot: u64) -> GamePlayer {
    GamePlayer {
        join_time: (NOW - 60) * 1_000_000,
        latency: 10 + id,
        name: format!("player{}", id),
        platoon: String::new(),
        player_id: id,
        rank: id,
        slot,
        user_id: id,
        platform: Some("pc".to_string()),
    }
}

fn team(name: &str, players: Vec<GamePlayer>) -> GameTeam {
    GameTeam {
        teamid: name.to_string(),
        players,
        image: String::new(),
        key: name.to_string(),
        name: name.to_string(),
        faction: String::new(),
    }
}

fn snapshot(teams: Vec<GameTeam>) -> PlayerList {
    PlayerList {
        serverinfo: ServerInfo {
            name: "Srv".to_string(),
            description: String::new(),
            region: String::new(),
            country: String::new(),
            level: String::new(),
            mode: String::new(),
            maps: None,
            owner: String::new(),
            settings: None,
            servertype: String::new(),
        },
        teams,
        que: vec![],
        loading: vec![],
        update_timestamp: NOW,
    }
}

fn enriched(teams: usize) -> SeederPlayerList {
    SeederPlayerList {
        _id: String::new(),
        game_id: 0,
        ingame_chat: vec![],
        serverinfo: SeederServerInfo {
            country: String::new(),
            description: String::new(),
            level: String::new(),
            maps: None,
            mode: String::new(),
            name: String::new(),
            owner: String::new(),
            region: String::new(),
            servertype: String::new(),
            settings: None,
        },
        teams: (0..teams)
            .map(|t| SeederServerTeam {
                teamid: t.to_string(),
                players: vec![],
                image: String::new(),
                key: String::new(),
                name: format!("team{}", t),
                faction: String::new(),
                score: 0,
                score_from_kills: 0,
                score_from_flags: 0,
            })
            .collect(),
        time_stamp: String::new(),
        update_timestamp: NOW,
    }
}

#[test]
fn cycle_begins_with_the_primary_fetch() {
    assert_eq!(CyclePhase::begin(), CyclePhase::FetchingPrimary { retried: false });
    assert_eq!(CyclePhase::begin().next_step(), CycleStep::FetchPrimary);
    assert_eq!(POLL_INTERVAL, 30);
}

#[test]
fn primary_fetch_is_retried_exactly_once() {
    let once = CyclePhase::begin().advance(Games::Bf1, Err(FetchError::Network));
    assert_eq!(once, CyclePhase::FetchingPrimary { retried: true });
    assert_eq!(once.next_step(), CycleStep::FetchPrimary);
    let twice = once.advance(Games::Bf1, Err(FetchError::Decode));
    assert_eq!(twice, CyclePhase::GivenUp { error: FetchError::Decode });
    assert_eq!(twice.next_step(), CycleStep::Skip);
    assert!(!twice.has_rendered());
}

#[test]
fn retry_that_succeeds_goes_on() {
    let phase = CyclePhase::begin()
        .advance(Games::Bf1, Err(FetchError::Network))
        .advance(Games::Bf1, Ok(()));
    assert_eq!(phase.next_step(), CycleStep::FetchEnriched);
}

#[test]
fn enriched_fetch_is_never_retried() {
    let fetching = CyclePhase::begin().advance(Games::Bf1, Ok(()));
    assert_eq!(fetching, CyclePhase::FetchingEnriched);
    for error in [FetchError::Network, FetchError::Decode, FetchError::Stale] {
        let phase = fetching.advance(Games::Bf1, Err(error));
        assert_eq!(phase, CyclePhase::Ready { enriched: false });
        assert_eq!(phase.next_step(), CycleStep::Render { enriched: false });
        assert!(phase.has_rendered());
    }
    let phase = fetching.advance(Games::Bf1, Ok(()));
    assert_eq!(phase.next_step(), CycleStep::Render { enriched: true });
}

#[test]
fn second_game_has_no_enriched_source() {
    let phase = CyclePhase::begin().advance(Games::Bf4, Ok(()));
    assert_eq!(phase, CyclePhase::Ready { enriched: false });
    let given_up = CyclePhase::begin()
        .advance(Games::Bf4, Err(FetchError::Network))
        .advance(Games::Bf4, Err(FetchError::Network));
    assert_eq!(given_up.next_step(), CycleStep::Skip);
}

#[test]
fn settled_phase_stays_as_it_is() {
    let ready = CyclePhase::Ready { enriched: true };
    assert_eq!(ready.advance(Games::Bf1, Err(FetchError::Network)), ready);
    let given_up = CyclePhase::GivenUp { error: FetchError::Network };
    assert_eq!(given_up.advance(Games::Bf1, Ok(())), given_up);
}

#[test]
fn liveness_is_unchanged_after_a_failed_cycle() {
    let phase = CyclePhase::begin()
        .advance(Games::Bf1, Err(FetchError::Network))
        .advance(Games::Bf1, Err(FetchError::Network));
    assert_eq!(liveness_after(1000, 2000, phase), 1000);
    assert_eq!(liveness_after(1000, 2000, CyclePhase::begin()), 1000);
    assert_eq!(liveness_after(1000, 2000, CyclePhase::FetchingEnriched), 1000);
}

#[test]
fn liveness_advances_to_the_start_of_a_rendered_cycle() {
    let phase = CyclePhase::begin().advance(Games::Bf1, Ok(())).advance(Games::Bf1, Err(FetchError::Stale));
    assert_eq!(liveness_after(1000, 2000, phase), 2000);
    assert_eq!(liveness_after(1000, 2000, CyclePhase::Ready { enriched: true }), 2000);
}

#[test]
fn probe_is_healthy_below_five_minutes() {
    assert_eq!(STALL_MINUTES, 5);
    let report = probe(NOW, NOW);
    assert!(report.healthy);
    assert_eq!(report.body, "0");
    let report = probe(NOW, NOW + 59);
    assert!(report.healthy);
    assert_eq!(report.body, "0");
    let report = probe(NOW, NOW + 4 * 60 + 59);
    assert!(report.healthy);
    assert_eq!(report.body, "4");
}

#[test]
fn probe_is_unhealthy_from_five_minutes_on() {
    let report = probe(NOW, NOW + 5 * 60);
    assert!(!report.healthy);
    assert_eq!(report.body, "5");
    let report = probe(NOW, NOW + 6 * 60 + 1);
    assert!(!report.healthy);
    assert_eq!(report.body, "6");
    let report = probe(0, NOW);
    assert!(!report.healthy);
    assert_eq!(report.body, (NOW / 60).to_string());
}

#[test]
fn probe_counts_whole_minutes_gone_by() {
    let report = probe(59, 300);
    assert_eq!(report.body, "4");
    assert!(report.healthy);
    let report = probe(59, 359);
    assert_eq!(report.body, "5");
    assert!(!report.healthy);
    let report = probe(i64::MIN, i64::MAX);
    assert_eq!(report.body, "307445734561825860");
    assert!(!report.healthy);
    let report = probe(100, 0);
    assert_eq!(report.body, "-1");
    assert!(report.healthy);
    let report = probe(i64::MAX, i64::MIN);
    assert_eq!(report.body, "-307445734561825860");
    assert!(report.healthy);
}

#[test]
fn prepare_yields_one_chunk_for_the_title_and_two_per_team() {
    let primary = snapshot(vec![team("A", vec![]), team("B", vec![]), team("C", vec![])]);
    assert_eq!(prepare(&primary, None, NOW).len(), 7);
    assert_eq!(prepare(&primary, Some(&enriched(2)), NOW).len(), 5);
    assert_eq!(prepare(&primary, Some(&enriched(0)), NOW).len(), 1);
    assert_eq!(prepare(&snapshot(vec![]), None, NOW).len(), 1);
}

#[test]
fn two_teams_of_three_players_fill_five_slots() {
    let primary = snapshot(vec![
        team("Alpha", vec![player(1, 2), player(2, 0), player(3, 1)]),
        team("Beta", vec![player(4, 0), player(5, 1), player(6, 2)]),
    ]);
    let chunks = prepare(&primary, None, NOW);
    assert_eq!(chunks.len(), 5);
    assert!(chunks[0].starts_with("Srv playerlist\n"));
    assert_eq!(chunks[1], "Alpha\nRank  Name     Ping  Playtime\n2     player2  12ms  1 minute");
    assert_eq!(chunks[2], "3     player3  13ms  1 minute\n1     player1  11ms  1 minute\n");
    assert_eq!(chunks[3], "Beta\nRank  Name     Ping  Playtime\n4     player4  14ms  1 minute");
    assert_eq!(chunks[4], "5     player5  15ms  1 minute\n6     player6  16ms  1 minute\n");

    let mut first = SlotReconciler::start(vec![], chunks.clone());
    assert_eq!(first.mode(), ReconcileMode::Recreating);
    let mut created = Vec::new();
    let mut next_handle = 500u64;
    loop {
        match first.pending() {
            SlotAction::Create { index, text } => {
                assert_eq!(text, format!("```\n{}\n```", chunks[index]));
                created.push(index);
                first = first.record(Some(next_handle));
                next_handle += 1;
            }
            SlotAction::Edit { .. } => panic!("an empty table cannot be edited"),
            SlotAction::Finished { persist } => {
                assert!(persist);
                break;
            }
        }
    }
    assert_eq!(created, vec![0, 1, 2, 3, 4]);
    let table = first.into_table();
    assert_eq!(table, vec![500, 501, 502, 503, 504]);

    let again = prepare(&primary, None, NOW + 30);
    let mut second = SlotReconciler::start(table.clone(), again.clone());
    assert_eq!(second.mode(), ReconcileMode::Editing);
    let mut edited = Vec::new();
    loop {
        match second.pending() {
            SlotAction::Edit { index, handle, text } => {
                assert_eq!(text, format!("```\n{}\n```", again[index]));
                edited.push((index, handle));
                second = second.record(Some(handle));
            }
            SlotAction::Create { .. } => panic!("a matching table must not be recreated"),
            SlotAction::Finished { persist } => {
                assert!(!persist);
                break;
            }
        }
    }
    assert_eq!(edited, vec![(0, 500), (1, 501), (2, 502), (3, 503), (4, 504)]);
    assert_eq!(second.into_table(), table);
}

#[test]
fn cycle_goes_on_with_a_report_that_lists_no_teams() {
    let report = DetailedServerInfo {
        prefix: "Srv".to_string(),
        current_map: "Zavod".to_string(),
        mode: "Rush".to_string(),
        favorites: "1".to_string(),
        teams: None,
        players: None,
    };
    let phase = CyclePhase::begin().advance(Games::Bf4, Ok(()));
    assert_eq!(phase.next_step(), CycleStep::Render { enriched: false });
    let (title, teams) = bf4_player_list::to_tables_at(&report, NOW);
    let chunks = paginate(&RenderedContent { title: title.clone(), teams });
    assert_eq!(chunks, vec![title]);
    let reconciler = SlotReconciler::start(vec![], chunks);
    assert!(matches!(reconciler.pending(), SlotAction::Create { index: 0, .. }));
    assert_eq!(liveness_after(5, NOW, phase), NOW);
}
