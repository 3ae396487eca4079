use kforward::config::{Config, ContextConfig, NameSpaceConfig, PodConfig};
use kforward::session::{PodUI, ProcessStatus};

fn pod(service: &str, port: i32) -> PodConfig {
    PodConfig { service: service.to_string(), port }
}

fn namespace(name: &str, pods: Vec<PodConfig>) -> NameSpaceConfig {
    NameSpaceConfig { namespace: name.to_string(), pods }
}

fn context(name: &str, namespaces: Vec<NameSpaceConfig>) -> ContextConfig {
    ContextConfig { context: name.to_string(), namespaces }
}

fn identities(sessions: &[PodUI<u8>]) -> Vec<(String, String, String, i32)> {
    sessions
        .iter()
        .map(|s| (s.get_context(), s.get_namespace(), s.get_service(), s.get_port()))
        .collect()
}

fn identity(c: &str, n: &str, s: &str, port: i32) -> (String, String, String, i32) {
    (c.to_string(), n.to_string(), s.to_string(), port)
}

#[test]
fn default_config_has_no_context() {
    let config = Config::default();
    assert!(config.contexts.is_empty());
    let sessions: Vec<PodUI<u8>> = config.sessions();
    assert!(sessions.is_empty());
}

#[test]
fn sessions_follow_the_order_of_the_configuration() {
    let config = Config {
        contexts: vec![
            context(
                "dev",
                vec![
                    namespace("ns1", vec![pod("svcA", 8080), pod("svcB", 9090)]),
                    namespace("ns2", vec![pod("svcC", 7070)]),
                ],
            ),
            context("prod", vec![namespace("ns1", vec![pod("api", 443)])]),
        ],
    };
    let sessions: Vec<PodUI<u8>> = config.sessions();
    assert_eq!(
        identities(&sessions),
        vec![
            identity("dev", "ns1", "svcA", 8080),
            identity("dev", "ns1", "svcB", 9090),
            identity("dev", "ns2", "svcC", 7070),
            identity("prod", "ns1", "api", 443),
        ]
    );
}

#[test]
fn sessions_of_a_configuration_hold_no_handle() {
    let config = Config {
        contexts: vec![context("dev", vec![namespace("ns1", vec![pod("a", 1), pod("b", 2)])])],
    };
    let sessions: Vec<PodUI<u8>> = config.sessions();
    assert_eq!(sessions.len(), 2);
    for session in &sessions {
        assert!(!session.has_process());
        assert!(!session.is_running(ProcessStatus::Running));
    }
}

#[test]
fn empty_contexts_and_namespaces_give_no_session() {
    let config = Config {
        contexts: vec![
            context("empty", vec![]),
            context("dev", vec![namespace("none", vec![]), namespace("ns", vec![pod("a", 1)])]),
            context("last", vec![namespace("none", vec![])]),
        ],
    };
    let sessions: Vec<PodUI<u8>> = config.sessions();
    assert_eq!(identities(&sessions), vec![identity("dev", "ns", "a", 1)]);
}

#[test]
fn a_service_listed_twice_gives_two_sessions() {
    let config = Config {
        contexts: vec![
            context("dev", vec![namespace("ns", vec![pod("a", 1), pod("a", 1)])]),
            context("dev", vec![namespace("ns", vec![pod("a", 1)])]),
        ],
    };
    let mut sessions: Vec<PodUI<u8>> = config.sessions();
    assert_eq!(
        identities(&sessions),
        vec![
            identity("dev", "ns", "a", 1),
            identity("dev", "ns", "a", 1),
            identity("dev", "ns", "a", 1),
        ]
    );
    assert_eq!(sessions[0].started(Some(1)), Ok(()));
    assert!(sessions[0].has_process());
    assert!(!sessions[1].has_process());
    assert!(!sessions[2].has_process());
}
