use kforward::config::{Config, ContextConfig, NameSpaceConfig, PodConfig};
use kforward::controller::{contexts_of, filtered_pods, status_of, Action, Controller};
use kforward::frame::{Row, RowColor};
use kforward::input::{event_for_key, InputEvent, Key};
use kforward::pod::Pod;
use kforward::session::{Error, PodUI, ProcessStatus};

fn pod(context: &str, namespace: &str, service: &str, port: i32) -> PodUI<u32> {
    PodUI::new(Pod::new(context, namespace, service, port))
}

/// dev: svcA:8080, svcB:9090, svcC:7070 (sessions 0, 1, 3); prod: api:443, db:5432 (2, 4).
fn two_environments() -> Controller<u32> {
    Controller::new(vec![
        pod("dev", "ns1", "svcA", 8080),
        pod("dev", "ns1", "svcB", 9090),
        pod("prod", "ns2", "api", 443),
        pod("dev", "ns3", "svcC", 7070),
        pod("prod", "ns2", "db", 5432),
    ])
}

fn nothing_known(controller: &Controller<u32>) -> Vec<ProcessStatus> {
    vec![ProcessStatus::Unknown; controller.len()]
}

fn all_alive(controller: &Controller<u32>) -> Vec<ProcessStatus> {
    vec![ProcessStatus::Running; controller.len()]
}

fn is_continue(action: &Action) -> bool {
    matches!(action, Action::Continue)
}

fn labels(rows: &[Row]) -> Vec<String> {
    rows.iter().map(|row| row.label.clone()).collect()
}

#[test]
fn environments_come_in_order_of_first_appearance() {
    let controller = Controller::new(vec![
        pod("prod", "n", "a", 1),
        pod("dev", "n", "b", 2),
        pod("prod", "n", "c", 3),
        pod("stage", "n", "d", 4),
        pod("dev", "n", "e", 5),
    ]);
    assert_eq!(controller.environments(), vec!["prod", "dev", "stage"]);
    assert_eq!(controller.environment(), "prod");
    assert_eq!(controller.environment_position(), 0);
    assert_eq!(controller.selected_index(), 0);
}

#[test]
fn contexts_of_lists_each_context_once() {
    let pods = vec![pod("b", "n", "x", 1), pod("a", "n", "x", 1), pod("b", "n", "y", 2)];
    assert_eq!(contexts_of(&pods), vec!["b", "a"]);
    let none: Vec<PodUI<u32>> = Vec::new();
    assert!(contexts_of(&none).is_empty());
}

#[test]
fn filtered_pods_keeps_the_order_of_the_sessions() {
    let pods = vec![
        pod("dev", "n", "a", 1),
        pod("prod", "n", "b", 2),
        pod("dev", "n", "c", 3),
        pod("dev", "n", "d", 4),
    ];
    assert_eq!(filtered_pods(&pods, &"dev".to_string()), vec![0, 2, 3]);
    assert_eq!(filtered_pods(&pods, &"prod".to_string()), vec![1]);
    assert!(filtered_pods(&pods, &"stage".to_string()).is_empty());
}

#[test]
fn filtered_list_is_the_same_on_every_frame() {
    let controller = two_environments();
    let first = controller.filtered_pods();
    let second = controller.filtered_pods();
    assert_eq!(first, vec![0, 1, 3]);
    assert_eq!(first, second);
    let statuses = nothing_known(&controller);
    assert_eq!(labels(&controller.rows(&statuses)), labels(&controller.rows(&statuses)));
}

#[test]
fn status_of_a_missing_entry_is_unknown() {
    let statuses = vec![ProcessStatus::Running, ProcessStatus::Exited];
    assert_eq!(status_of(&statuses, 0), ProcessStatus::Running);
    assert_eq!(status_of(&statuses, 1), ProcessStatus::Exited);
    assert_eq!(status_of(&statuses, 2), ProcessStatus::Unknown);
}

#[test]
fn down_wraps_around_after_as_many_moves_as_rows() {
    let mut controller = two_environments();
    let statuses = nothing_known(&controller);
    let rows = controller.filtered_pods().len();
    assert_eq!(rows, 3);
    let mut seen = Vec::new();
    for _ in 0..rows {
        assert!(is_continue(&controller.handle_event(InputEvent::Down, &statuses)));
        seen.push(controller.selected_index());
    }
    assert_eq!(seen, vec![1, 2, 0]);
}

#[test]
fn up_wraps_from_the_first_row_to_the_last() {
    let mut controller = two_environments();
    let statuses = nothing_known(&controller);
    assert!(is_continue(&controller.handle_event(InputEvent::Up, &statuses)));
    assert_eq!(controller.selected_index(), 2);
    assert!(is_continue(&controller.handle_event(InputEvent::Up, &statuses)));
    assert_eq!(controller.selected_index(), 1);
    assert!(is_continue(&controller.handle_event(InputEvent::Down, &statuses)));
    assert_eq!(controller.selected_index(), 2);
    assert!(is_continue(&controller.handle_event(InputEvent::Down, &statuses)));
    assert_eq!(controller.selected_index(), 0);
}

#[test]
fn cursor_of_a_single_row_stays() {
    let mut controller = Controller::new(vec![pod("dev", "n", "a", 1)]);
    let statuses = nothing_known(&controller);
    controller.handle_event(InputEvent::Down, &statuses);
    assert_eq!(controller.selected_index(), 0);
    controller.handle_event(InputEvent::Up, &statuses);
    assert_eq!(controller.selected_index(), 0);
}

#[test]
fn next_environment_goes_round() {
    let mut controller = two_environments();
    let statuses = nothing_known(&controller);
    assert_eq!(controller.environment(), "dev");
    assert!(is_continue(&controller.handle_event(InputEvent::NextEnvironment, &statuses)));
    assert_eq!(controller.environment(), "prod");
    assert_eq!(controller.environment_position(), 1);
    assert_eq!(controller.filtered_pods(), vec![2, 4]);
    assert!(is_continue(&controller.handle_event(InputEvent::NextEnvironment, &statuses)));
    assert_eq!(controller.environment(), "dev");
    assert_eq!(controller.environment_position(), 0);
}

#[test]
fn each_environment_keeps_its_own_cursor() {
    let mut controller = two_environments();
    let statuses = nothing_known(&controller);
    controller.handle_event(InputEvent::Down, &statuses);
    controller.handle_event(InputEvent::Down, &statuses);
    assert_eq!(controller.selected_index(), 2);
    controller.handle_event(InputEvent::NextEnvironment, &statuses);
    assert_eq!(controller.environment(), "prod");
    assert_eq!(controller.selected_index(), 0);
    controller.handle_event(InputEvent::Down, &statuses);
    assert_eq!(controller.selected_index(), 1);
    controller.handle_event(InputEvent::NextEnvironment, &statuses);
    assert_eq!(controller.environment(), "dev");
    assert_eq!(controller.selected_index(), 2);
    controller.handle_event(InputEvent::NextEnvironment, &statuses);
    assert_eq!(controller.selected_index(), 1);
}

#[test]
fn controller_without_sessions_ignores_every_move() {
    let mut controller: Controller<u32> = Controller::new(Vec::new());
    let statuses = Vec::new();
    assert_eq!(controller.len(), 0);
    assert!(controller.environments().is_empty());
    assert_eq!(controller.environment(), "");
    assert!(controller.filtered_pods().is_empty());
    assert!(controller.rows(&statuses).is_empty());
    for event in [
        InputEvent::NextEnvironment,
        InputEvent::Up,
        InputEvent::Down,
        InputEvent::Select,
    ] {
        assert!(is_continue(&controller.handle_event(event, &statuses)));
        assert_eq!(controller.selected_index(), 0);
        assert_eq!(controller.environment_position(), 0);
    }
    match controller.handle_event(InputEvent::Quit, &statuses) {
        Action::Shutdown(plan) => assert!(plan.is_empty()),
        other => panic!("{:?}", other),
    }
    assert!(controller.shutdown_all(&statuses, &Vec::new()).is_empty());
}

#[test]
fn select_starts_a_session_that_is_not_running() {
    let mut controller = two_environments();
    let statuses = nothing_known(&controller);
    controller.handle_event(InputEvent::Down, &statuses);
    match controller.handle_event(InputEvent::Select, &statuses) {
        Action::Start(index) => {
            assert_eq!(index, 1);
            assert_eq!(controller.get_pod(index).get_service(), "svcB");
            assert_eq!(controller.started(index, Some(100)), Ok(()));
        }
        other => panic!("{:?}", other),
    }
    assert_eq!(controller.process_mut(1).copied(), Some(100));
    assert!(controller.process_mut(0).is_none());
    assert_eq!(controller.selected_index(), 1);
}

#[test]
fn select_stops_a_session_that_is_running() {
    let mut controller = two_environments();
    assert_eq!(controller.started(0, Some(100)), Ok(()));
    let statuses = all_alive(&controller);
    match controller.handle_event(InputEvent::Select, &statuses) {
        Action::Stop(index) => {
            assert_eq!(index, 0);
            assert_eq!(controller.stopped(index, true), Ok(()));
        }
        other => panic!("{:?}", other),
    }
    assert!(controller.process_mut(0).is_none());
    match controller.handle_event(InputEvent::Select, &statuses) {
        Action::Start(index) => assert_eq!(index, 0),
        other => panic!("{:?}", other),
    }
}

#[test]
fn select_restarts_a_session_whose_process_died() {
    let mut controller = two_environments();
    assert_eq!(controller.started(0, Some(100)), Ok(()));
    let mut statuses = all_alive(&controller);
    statuses[0] = ProcessStatus::Exited;
    match controller.handle_event(InputEvent::Select, &statuses) {
        Action::Start(index) => {
            assert_eq!(index, 0);
            assert_eq!(controller.started(index, Some(101)), Ok(()));
        }
        other => panic!("{:?}", other),
    }
    assert_eq!(controller.process_mut(0).copied(), Some(101));
}

#[test]
fn select_never_starts_a_running_session() {
    let mut controller = two_environments();
    for index in 0..controller.len() {
        assert_eq!(controller.started(index, Some(index as u32)), Ok(()));
    }
    let statuses = all_alive(&controller);
    for _ in 0..2 {
        for _ in 0..3 {
            let action = controller.handle_event(InputEvent::Select, &statuses);
            assert!(matches!(action, Action::Stop(_)), "{:?}", action);
            controller.handle_event(InputEvent::Down, &statuses);
        }
        controller.handle_event(InputEvent::NextEnvironment, &statuses);
    }
    for index in 0..controller.len() {
        assert_eq!(controller.process_mut(index).copied(), Some(index as u32));
    }
}

#[test]
fn failed_spawn_is_reported_and_leaves_no_handle() {
    let mut controller = two_environments();
    assert_eq!(controller.started(1, None), Err(Error::SpawnFailed));
    assert!(controller.process_mut(1).is_none());
    let statuses = all_alive(&controller);
    let rows = controller.rows(&statuses);
    assert_eq!(rows[1].label, "dev - ns1 - svcB:9090 - Not Running");
    assert!(!rows[1].running);
}

#[test]
fn stopped_drops_the_handle_even_when_the_termination_failed() {
    let mut controller = two_environments();
    assert_eq!(controller.started(0, Some(100)), Ok(()));
    assert_eq!(controller.stopped(0, false), Err(Error::TerminateFailed));
    assert!(controller.process_mut(0).is_none());
    assert_eq!(controller.stopped(0, true), Err(Error::NotRunning));
    assert!(controller.process_mut(0).is_none());
}

#[test]
fn rows_show_label_cursor_and_liveness() {
    let mut controller = two_environments();
    assert_eq!(controller.started(1, Some(100)), Ok(()));
    assert_eq!(controller.started(3, Some(101)), Ok(()));
    let mut statuses = all_alive(&controller);
    statuses[3] = ProcessStatus::Exited;
    let rows = controller.rows(&statuses);
    assert_eq!(
        labels(&rows),
        vec![
            "dev - ns1 - svcA:8080 - Not Running",
            "dev - ns1 - svcB:9090 - Running",
            "dev - ns3 - svcC:7070 - Not Running",
        ]
    );
    assert_eq!(rows.iter().map(|row| row.selected).collect::<Vec<_>>(), vec![true, false, false]);
    assert_eq!(rows.iter().map(|row| row.running).collect::<Vec<_>>(), vec![false, true, false]);
    assert_eq!(
        rows.iter().map(|row| row.color()).collect::<Vec<_>>(),
        vec![RowColor::Yellow, RowColor::Green, RowColor::LightRed]
    );
    controller.handle_event(InputEvent::Down, &statuses);
    let rows = controller.rows(&statuses);
    assert_eq!(rows.iter().map(|row| row.selected).collect::<Vec<_>>(), vec![false, true, false]);
    assert_eq!(
        rows.iter().map(|row| row.color()).collect::<Vec<_>>(),
        vec![RowColor::LightRed, RowColor::Yellow, RowColor::LightRed]
    );
}

#[test]
fn rows_with_too_few_statuses_count_the_rest_as_not_running() {
    let mut controller = two_environments();
    for index in 0..controller.len() {
        assert_eq!(controller.started(index, Some(1)), Ok(()));
    }
    let statuses = vec![ProcessStatus::Running];
    let rows = controller.rows(&statuses);
    assert_eq!(rows.iter().map(|row| row.running).collect::<Vec<_>>(), vec![true, false, false]);
    assert_eq!(controller.running_pods(&statuses), vec![0]);
}

#[test]
fn row_colors() {
    let row = |selected, running| Row { label: String::new(), selected, running };
    assert_eq!(row(true, true).color(), RowColor::Yellow);
    assert_eq!(row(true, false).color(), RowColor::Yellow);
    assert_eq!(row(false, true).color(), RowColor::Green);
    assert_eq!(row(false, false).color(), RowColor::LightRed);
}

#[test]
fn quit_plans_to_stop_exactly_the_running_sessions() {
    let mut controller = two_environments();
    for index in [0, 2, 3, 4] {
        assert_eq!(controller.started(index, Some(index as u32)), Ok(()));
    }
    let mut statuses = all_alive(&controller);
    statuses[3] = ProcessStatus::Exited;
    statuses[4] = ProcessStatus::Unknown;
    assert_eq!(controller.running_pods(&statuses), vec![0, 2]);
    match controller.handle_event(InputEvent::Quit, &statuses) {
        Action::Shutdown(plan) => assert_eq!(plan, vec![0, 2]),
        other => panic!("{:?}", other),
    }
    assert_eq!(controller.selected_index(), 0);
    assert_eq!(controller.environment(), "dev");
}

#[test]
fn shutdown_stops_every_running_session() {
    let mut controller = two_environments();
    for index in 0..controller.len() {
        assert_eq!(controller.started(index, Some(index as u32)), Ok(()));
    }
    let statuses = all_alive(&controller);
    let terminated = vec![true; controller.len()];
    assert!(controller.shutdown_all(&statuses, &terminated).is_empty());
    for index in 0..controller.len() {
        assert!(controller.process_mut(index).is_none());
    }
    assert!(controller.running_pods(&statuses).is_empty());
}

#[test]
fn shutdown_goes_on_after_a_termination_that_failed() {
    let mut controller = two_environments();
    for index in 0..controller.len() {
        assert_eq!(controller.started(index, Some(index as u32)), Ok(()));
    }
    let statuses = all_alive(&controller);
    let terminated = vec![true, false, true, true, true];
    assert_eq!(controller.shutdown_all(&statuses, &terminated), vec![1]);
    for index in [0, 2, 3, 4] {
        assert!(controller.process_mut(index).is_none());
    }
    assert_eq!(controller.process_mut(1).copied(), Some(1));
}

#[test]
fn shutdown_leaves_sessions_that_are_not_running_alone() {
    let mut controller = two_environments();
    assert_eq!(controller.started(0, Some(10)), Ok(()));
    assert_eq!(controller.started(1, Some(11)), Ok(()));
    assert_eq!(controller.started(2, Some(12)), Ok(()));
    let statuses = vec![
        ProcessStatus::Running,
        ProcessStatus::Exited,
        ProcessStatus::Unknown,
        ProcessStatus::Running,
        ProcessStatus::Running,
    ];
    let terminated = vec![true; 5];
    assert!(controller.shutdown_all(&statuses, &terminated).is_empty());
    assert!(controller.process_mut(0).is_none());
    assert_eq!(controller.process_mut(1).copied(), Some(11));
    assert_eq!(controller.process_mut(2).copied(), Some(12));
    assert!(controller.process_mut(3).is_none());
}

#[test]
fn shutdown_counts_a_missing_outcome_as_a_failure() {
    let mut controller = two_environments();
    assert_eq!(controller.started(0, Some(10)), Ok(()));
    assert_eq!(controller.started(4, Some(14)), Ok(()));
    let statuses = all_alive(&controller);
    let terminated = vec![true];
    assert_eq!(controller.shutdown_all(&statuses, &terminated), vec![4]);
    assert!(controller.process_mut(0).is_none());
    assert_eq!(controller.process_mut(4).copied(), Some(14));
}

#[test]
fn keys_stand_for_inputs() {
    assert_eq!(event_for_key(Key::Char('q')), Some(InputEvent::Quit));
    assert_eq!(event_for_key(Key::Char('e')), Some(InputEvent::NextEnvironment));
    assert_eq!(event_for_key(Key::Up), Some(InputEvent::Up));
    assert_eq!(event_for_key(Key::Char('k')), Some(InputEvent::Up));
    assert_eq!(event_for_key(Key::Down), Some(InputEvent::Down));
    assert_eq!(event_for_key(Key::Char('j')), Some(InputEvent::Down));
    assert_eq!(event_for_key(Key::Enter), Some(InputEvent::Select));
}

#[test]
fn other_keys_stand_for_nothing() {
    assert_eq!(event_for_key(Key::Other), None);
    assert_eq!(event_for_key(Key::Char('x')), None);
    assert_eq!(event_for_key(Key::Char('Q')), None);
    assert_eq!(event_for_key(Key::Char('\n')), None);
}

#[test]
fn handle_key_ignores_unknown_keys() {
    let mut controller = two_environments();
    let statuses = nothing_known(&controller);
    controller.handle_key(Key::Down, &statuses);
    assert!(is_continue(&controller.handle_key(Key::Char('x'), &statuses)));
    assert!(is_continue(&controller.handle_key(Key::Other, &statuses)));
    assert_eq!(controller.selected_index(), 1);
    assert_eq!(controller.environment(), "dev");
}

#[test]
fn handle_key_moves_with_letters_and_arrows() {
    let mut controller = two_environments();
    let statuses = nothing_known(&controller);
    controller.handle_key(Key::Char('j'), &statuses);
    assert_eq!(controller.selected_index(), 1);
    controller.handle_key(Key::Down, &statuses);
    assert_eq!(controller.selected_index(), 2);
    controller.handle_key(Key::Char('k'), &statuses);
    assert_eq!(controller.selected_index(), 1);
    controller.handle_key(Key::Up, &statuses);
    assert_eq!(controller.selected_index(), 0);
    controller.handle_key(Key::Char('e'), &statuses);
    assert_eq!(controller.environment(), "prod");
    assert!(matches!(controller.handle_key(Key::Enter, &statuses), Action::Start(2)));
    assert!(matches!(controller.handle_key(Key::Char('q'), &statuses), Action::Shutdown(_)));
}

#[test]
fn two_sessions_of_one_environment_run_side_by_side() {
    let config = Config {
        contexts: vec![
            ContextConfig {
                context: "dev".to_string(),
                namespaces: vec![NameSpaceConfig {
                    namespace: "ns1".to_string(),
                    pods: vec![
                        PodConfig { service: "svcA".to_string(), port: 8080 },
                        PodConfig { service: "svcB".to_string(), port: 9090 },
                    ],
                }],
            },
            ContextConfig {
                context: "prod".to_string(),
                namespaces: vec![NameSpaceConfig {
                    namespace: "ns1".to_string(),
                    pods: vec![PodConfig { service: "svcA".to_string(), port: 8080 }],
                }],
            },
        ],
    };
    let mut controller: Controller<u32> = Controller::new(config.sessions());
    assert_eq!(controller.environments(), vec!["dev", "prod"]);
    let mut statuses = nothing_known(&controller);

    match controller.handle_key(Key::Enter, &statuses) {
        Action::Start(index) => {
            assert_eq!(index, 0);
            assert_eq!(controller.started(index, Some(1000)), Ok(()));
            statuses[index] = ProcessStatus::Running;
        }
        other => panic!("{:?}", other),
    }
    assert_eq!(controller.rows(&statuses)[0].label, "dev - ns1 - svcA:8080 - Running");

    assert!(is_continue(&controller.handle_key(Key::Down, &statuses)));
    match controller.handle_key(Key::Enter, &statuses) {
        Action::Start(index) => {
            assert_eq!(index, 1);
            assert_eq!(controller.get_pod(index).get_service(), "svcB");
            assert_eq!(controller.started(index, Some(1001)), Ok(()));
            statuses[index] = ProcessStatus::Running;
        }
        other => panic!("{:?}", other),
    }

    let rows = controller.rows(&statuses);
    assert_eq!(rows[0].label, "dev - ns1 - svcA:8080 - Running");
    assert_eq!(rows[1].label, "dev - ns1 - svcB:9090 - Running");
    assert!(rows[0].running && rows[1].running);
    assert!(!rows[0].selected && rows[1].selected);
    assert_eq!(controller.process_mut(0).copied(), Some(1000));
    assert_eq!(controller.process_mut(1).copied(), Some(1001));
    assert!(controller.process_mut(2).is_none());
    assert_eq!(controller.running_pods(&statuses), vec![0, 1]);
}
