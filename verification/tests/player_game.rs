//! Per-player decisions, outcome ordering and per-game aggregation.

use sc2_proxy::config::RequestLimits;
use sc2_proxy::game::Game;
use sc2_proxy::game::GameEndReason;
use sc2_proxy::messaging::ToGame;
use sc2_proxy::messaging::ToGameContent;
use sc2_proxy::player::game_over_results;
use sc2_proxy::player::transport_failure_report;
use sc2_proxy::player::TransportFailure;
use sc2_proxy::player::Player;
use sc2_proxy::player::PlayerData;
use sc2_proxy::player::RequestVerdict;
use sc2_proxy::player::ResponseVerdict;
use sc2_proxy::protocol::DebugCommand;
use sc2_proxy::protocol::InterfaceOptions;
use sc2_proxy::protocol::Req;
use sc2_proxy::protocol::Resp;
use sc2_proxy::protocol::RespContent;
use sc2_proxy::sc2::PlayerResult;
use sc2_proxy::sc2::Race;
use sc2_proxy::sc2::Status;

fn data() -> PlayerData {
    PlayerData {
        race: Race::Terran,
        name: Some("bot".to_string()),
        ifopts: InterfaceOptions { raw: true, score: true, feature_layer: true, render: false },
    }
}

#[test]
fn cheat_policy_is_total_and_permissive_without_the_flag() {
    let open = RequestLimits { disable_cheats: false };
    let strict = RequestLimits { disable_cheats: true };
    let draw_only = Req::Debug(vec![DebugCommand::Draw, DebugCommand::Draw]);
    let mixed = Req::Debug(vec![DebugCommand::Draw, DebugCommand::Other]);
    let plain = Req::Ping;
    assert!(open.is_request_allowed(&draw_only));
    assert!(open.is_request_allowed(&mixed));
    assert!(open.is_request_allowed(&plain));
    assert!(strict.is_request_allowed(&draw_only));
    assert!(!strict.is_request_allowed(&mixed));
    assert!(strict.is_request_allowed(&plain));
}

#[test]
fn denied_requests_answer_with_an_error_frame() {
    let strict = RequestLimits { disable_cheats: true };
    let player = Player::new("127.0.0.1:50000".to_string(), data());
    let mixed = Req::Debug(vec![DebugCommand::Other]);
    match player.filter_request(&strict, &mixed) {
        RequestVerdict::Deny(resp) => match resp.content {
            RespContent::Error(msgs) => {
                assert_eq!(msgs, vec!["Proxy: Request denied".to_string()]);
            },
            other => panic!("expected an error frame, got {:?}", other),
        },
        RequestVerdict::Forward => panic!("a cheat request must not be forwarded"),
    }
    assert_eq!(player.filter_request(&strict, &Req::Ping), RequestVerdict::Forward);
}

#[test]
fn game_over_results_sort_by_player_id() {
    let observed = vec![
        (2, PlayerResult::Defeat),
        (1, PlayerResult::Victory),
        (3, PlayerResult::Tie),
    ];
    let sorted = game_over_results(&observed);
    assert_eq!(sorted, vec![PlayerResult::Victory, PlayerResult::Defeat, PlayerResult::Tie]);
    // two players observing the same results report identical vectors
    let again = game_over_results(&observed.clone());
    assert_eq!(sorted, again);
    // a different observation order of the same results reports the same
    let shuffled = vec![
        (3, PlayerResult::Tie),
        (2, PlayerResult::Defeat),
        (1, PlayerResult::Victory),
    ];
    assert_eq!(game_over_results(&shuffled), sorted);
}

#[test]
fn classify_response_drives_the_lifecycle() {
    let mut p = Player::new("c".to_string(), data());
    let obs = Resp {
        status: Status::InGame,
        content: RespContent::Observation {
            player_results: vec![(2, PlayerResult::Defeat), (1, PlayerResult::Victory)],
        },
    };
    match p.classify_response(&obs) {
        ResponseVerdict::GameOver(results) => {
            assert_eq!(results, vec![PlayerResult::Victory, PlayerResult::Defeat]);
        },
        other => panic!("expected a game-over report, got {:?}", other),
    }
    assert_eq!(p.sc2_status, Some(Status::InGame));

    let empty_obs = Resp {
        status: Status::InGame,
        content: RespContent::Observation { player_results: Vec::new() },
    };
    assert_eq!(p.classify_response(&empty_obs), ResponseVerdict::Continue);

    let left = Resp { status: Status::Launched, content: RespContent::LeaveGame };
    assert_eq!(p.classify_response(&left), ResponseVerdict::ClientLeft);
    assert!(p.can_extract());

    let quit = Resp { status: Status::Quit, content: RespContent::Quit };
    assert_eq!(p.classify_response(&quit), ResponseVerdict::EngineQuit);
    assert!(!p.can_extract());
}

#[test]
fn game_aggregates_outcomes_until_complete() {
    let mut outcomes: Vec<Option<PlayerResult>> = vec![None, None];
    assert!(!Game::outcomes_complete(&outcomes));

    // one player reports the authoritative game-over vector
    Game::process_msg(
        &ToGame {
            player_index: 0,
            content: ToGameContent::GameOver(vec![
                PlayerResult::Victory,
                PlayerResult::Defeat,
            ]),
        },
        &mut outcomes,
    );
    assert_eq!(outcomes, vec![Some(PlayerResult::Victory), Some(PlayerResult::Defeat)]);
    assert!(Game::outcomes_complete(&outcomes));

    // a later per-player terminal message does not overwrite a decided slot
    Game::process_msg(
        &ToGame { player_index: 0, content: ToGameContent::LeftGame },
        &mut outcomes,
    );
    assert_eq!(outcomes[0], Some(PlayerResult::Victory));

    // a duplicate game-over report is idempotent
    Game::process_msg(
        &ToGame {
            player_index: 1,
            content: ToGameContent::GameOver(vec![
                PlayerResult::Victory,
                PlayerResult::Defeat,
            ]),
        },
        &mut outcomes,
    );
    assert_eq!(outcomes, vec![Some(PlayerResult::Victory), Some(PlayerResult::Defeat)]);

    let result = Game::finalize(&outcomes);
    assert_eq!(result.end_reason, GameEndReason::Normal);
    assert_eq!(result.per_player, vec![PlayerResult::Victory, PlayerResult::Defeat]);
}

#[test]
fn disconnects_mark_their_own_slot_defeated() {
    let mut outcomes: Vec<Option<PlayerResult>> = vec![None, None];
    Game::process_msg(
        &ToGame { player_index: 1, content: ToGameContent::UnexpectedConnectionClose },
        &mut outcomes,
    );
    assert_eq!(outcomes, vec![None, Some(PlayerResult::Defeat)]);
    Game::process_msg(
        &ToGame { player_index: 0, content: ToGameContent::SC2UnexpectedConnectionClose },
        &mut outcomes,
    );
    assert!(Game::outcomes_complete(&outcomes));
    let result = Game::finalize(&outcomes);
    assert_eq!(result.per_player, vec![PlayerResult::Defeat, PlayerResult::Defeat]);
    // a game-over payload of the wrong width is ignored
    let mut other: Vec<Option<PlayerResult>> = vec![None, None];
    Game::process_msg(
        &ToGame { player_index: 0, content: ToGameContent::GameOver(vec![PlayerResult::Tie]) },
        &mut other,
    );
    assert_eq!(other, vec![None, None]);
    // so is one still carrying an undecided entry: the game is not over
    Game::process_msg(
        &ToGame {
            player_index: 0,
            content: ToGameContent::GameOver(vec![
                PlayerResult::Victory,
                PlayerResult::Undecided,
            ]),
        },
        &mut other,
    );
    assert_eq!(other, vec![None, None]);
    // a quit requested by the supervisor reports an empty vector
    let quit = Game::quit_result();
    assert_eq!(quit.end_reason, GameEndReason::QuitRequested);
    assert_eq!(quit.per_player.len(), 0);
}

#[test]
fn transport_failures_report_their_side() {
    assert_eq!(
        transport_failure_report(TransportFailure::ClientClosed),
        ToGameContent::UnexpectedConnectionClose
    );
    assert_eq!(
        transport_failure_report(TransportFailure::EngineClosed),
        ToGameContent::SC2UnexpectedConnectionClose
    );
}
