use horizon_event_system::path_router::PathRouter;
use std::sync::Arc;

#[derive(Debug)]
struct MockHandler {
    name: String,
}

fn handler(name: &str) -> Arc<MockHandler> {
    Arc::new(MockHandler { name: name.to_string() })
}

#[test]
fn test_basic_registration_and_lookup() {
    let mut router = PathRouter::new();
    let handler = Arc::new(MockHandler { name: "test".to_string() });

    router.register_handler("core:player:connected", handler);

    assert!(router.path_exists("core:player:connected"));
    assert_eq!(router.handler_count_for_path("core:player:connected"), 1);
    assert!(!router.path_exists("core:player:disconnected"));
}

#[test]
fn test_hierarchical_paths() {
    let mut router = PathRouter::new();

    router.register_handler("core:player:connected", Arc::new(MockHandler { name: "connect".to_string() }));
    router.register_handler("core:player:disconnected", Arc::new(MockHandler { name: "disconnect".to_string() }));
    router.register_handler("core:server:started", Arc::new(MockHandler { name: "start".to_string() }));

    assert!(router.path_exists("core:player:connected"));
    assert!(router.path_exists("core:player:disconnected"));
    assert!(router.path_exists("core:server:started"));
    assert!(!router.path_exists("core:player"));
    assert!(!router.path_exists("client:player:connected"));
}

#[test]
fn test_similar_path_finding() {
    let mut router = PathRouter::new();

    router.register_handler("gorc_instance:GorcPlayer:0:move", Arc::new(MockHandler { name: "instance_move".to_string() }));
    router.register_handler("gorc_instance:GorcPlayer:2:chat", Arc::new(MockHandler { name: "instance_chat".to_string() }));

    let similar = router.find_similar_paths("gorc:GorcPlayer:0:move", 10);

    assert!(!similar.is_empty());
    assert!(similar.contains(&"gorc_instance:GorcPlayer:0:move".to_string()));
}

#[test]
fn test_multiple_handlers_per_path() {
    let mut router = PathRouter::new();

    router.register_handler("core:tick", Arc::new(MockHandler { name: "handler1".to_string() }));
    router.register_handler("core:tick", Arc::new(MockHandler { name: "handler2".to_string() }));

    assert_eq!(router.handler_count_for_path("core:tick"), 2);
    assert_eq!(router.total_handlers(), 2);
}

#[test]
fn test_handlers_keep_registration_order() {
    let mut router = PathRouter::new();
    router.register_handler("core:tick", handler("first"));
    router.register_handler("core:other", handler("other"));
    router.register_handler("core:tick", handler("second"));
    let names: Vec<String> = router.find_handlers("core:tick").unwrap().iter().map(|h| h.name.clone()).collect();
    assert_eq!(names, vec!["first".to_string(), "second".to_string()]);
    assert!(router.find_handlers("core").is_none());
    assert_eq!(router.handler_count_for_path("missing"), 0);
    assert_eq!(router.total_handlers(), 3);
}

#[test]
fn test_get_all_paths_skips_the_empty_path() {
    let mut router = PathRouter::new();
    router.register_handler("a:b", handler("x"));
    router.register_handler("", handler("root"));
    router.register_handler("c", handler("y"));
    router.register_handler("a:b", handler("z"));
    assert_eq!(router.get_all_paths(), vec!["a:b".to_string(), "c".to_string()]);
    assert!(router.path_exists(""));
    assert_eq!(router.total_handlers(), 4);
}

#[test]
fn test_similar_paths_order_and_limit() {
    let mut router = PathRouter::new();
    for path in ["x:a:b", "core:player", "core:player:connected:late", "core:misc", "core", "z:player", "core:player:zzz"] {
        router.register_handler(path, handler(path));
    }
    let all = router.find_similar_paths("core:player:connected", 100);
    assert_eq!(
        all,
        vec![
            "core".to_string(),
            "core:player".to_string(),
            "core:player:connected:late".to_string(),
            "core:player:zzz".to_string(),
            "core:misc".to_string(),
            "z:player".to_string(),
        ]
    );
    let first_three = router.find_similar_paths("core:player:connected", 3);
    assert_eq!(first_three, all[..3].to_vec());
    assert!(router.find_similar_paths("nothing:here", 5).is_empty());
    assert!(router.find_similar_paths("core", 0).is_empty());
}
