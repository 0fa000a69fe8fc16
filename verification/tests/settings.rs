use shareflow::config::{AppConfig, ConfigFile, Neighbor, ScreenEdge, Settings};
use shareflow::paths::{
    config_path, crash_log_path, data_dir, hostname, needs_hostname_command, receive_dir,
    Directories, HostNames, Platform,
};
use shareflow::protocol::Message;
use shareflow::text::trim;

fn config(id: &str) -> AppConfig {
    AppConfig::with_identity("desk".to_string(), id.to_string())
}

fn neighbor(peer: &str, edge: ScreenEdge, screen: Option<&str>) -> Neighbor {
    Neighbor { peer_id: peer.to_string(), edge, screen_id: screen.map(|s| s.to_string()) }
}

fn pick(c: &mut AppConfig, peer: &str, edge: &str, screen: Option<&str>) -> Result<Message, String> {
    c.set_neighbor(peer.to_string(), edge.to_string(), screen.map(|s| s.to_string()))
}

#[test]
fn a_fresh_configuration_has_the_defaults() {
    let c = config("me");
    assert_eq!((c.port, c.discovery_port), (24800, 24801));
    assert!(c.is_primary_km_device && c.clipboard_sync_enabled);
    assert!(!c.agent_mode && !c.auto_connect && !c.is_first_run);
    assert!(!c.camera_sharing_enabled && !c.audio_sharing_enabled);
    assert!(c.neighbors.is_empty() && c.trusted_hosts.is_empty() && c.trusted_peers.is_empty());
    assert_eq!(c.host_address, "");
}

#[test]
fn a_new_identity_is_a_random_uuid() {
    let a = AppConfig::default_named("desk".to_string());
    let b = AppConfig::default_named("desk".to_string());
    assert_ne!(a.peer_id, b.peer_id);
    let chars: Vec<char> = a.peer_id.chars().collect();
    assert_eq!(chars.len(), 36);
    for (i, c) in chars.iter().enumerate() {
        if [8, 13, 18, 23].contains(&i) {
            assert_eq!(*c, '-');
        } else {
            assert!(matches!(c, '0'..='9' | 'a'..='f'));
        }
    }
    assert_eq!(chars[14], '4');
    assert!("89ab".contains(chars[19]));
}

#[test]
fn loading_decides_what_to_save() {
    let (first, save) = AppConfig::load(ConfigFile::Missing, "desk".to_string());
    assert!(save && first.is_first_run);
    assert_eq!(first.machine_name, "desk");
    let (locked, save) = AppConfig::load(ConfigFile::Unreadable, "desk".to_string());
    assert!(!save && !locked.is_first_run);
    let (broken, save) = AppConfig::load(ConfigFile::Unparsable, "desk".to_string());
    assert!(!save && !broken.is_first_run);
    let (_, save) = AppConfig::load(ConfigFile::Unparsable, "Unknown-PC".to_string());
    assert!(save);
    let (kept, save) = AppConfig::load(ConfigFile::Parsed(config("me")), "other".to_string());
    assert!(!save);
    assert_eq!(kept, config("me"));
    for name in ["Unknown-PC", ""] {
        let mut c = config("me");
        c.machine_name = name.to_string();
        let (named, save) = AppConfig::load(ConfigFile::Parsed(c), "desk".to_string());
        assert!(save);
        assert_eq!(named, config("me"));
    }
}

#[test]
fn picking_a_neighbor_sets_replaces_and_removes_it() {
    let mut c = config("me");
    let sent = pick(&mut c, "b", "right", None).unwrap();
    assert_eq!(
        sent,
        Message::AutoNeighbor { peer_id: "me".into(), edge: "Left".into(), remove: false }
    );
    assert_eq!(c.neighbors, vec![neighbor("b", ScreenEdge::Right, None)]);
    pick(&mut c, "c", "top", None).unwrap();
    pick(&mut c, "d", "right", Some("s")).unwrap();
    pick(&mut c, "e", "right", None).unwrap();
    assert_eq!(
        c.neighbors,
        vec![
            neighbor("c", ScreenEdge::Top, None),
            neighbor("d", ScreenEdge::Right, Some("s")),
            neighbor("e", ScreenEdge::Right, None),
        ]
    );
    let sent = pick(&mut c, "c", "top", None).unwrap();
    assert_eq!(
        sent,
        Message::AutoNeighbor { peer_id: "me".into(), edge: "Bottom".into(), remove: true }
    );
    assert_eq!(c.neighbors.len(), 2);
}

#[test]
fn an_unknown_edge_is_refused() {
    let mut c = config("me");
    assert_eq!(pick(&mut c, "b", "Right", None), Err("Invalid edge: Right".to_string()));
    assert_eq!(pick(&mut c, "b", "", None), Err("Invalid edge: ".to_string()));
    assert_eq!(c, config("me"));
}

#[test]
fn picking_twice_brings_the_mapping_back() {
    let mut c = config("me");
    pick(&mut c, "b", "left", None).unwrap();
    pick(&mut c, "b", "left", None).unwrap();
    assert!(c.neighbors.is_empty());
    pick(&mut c, "b", "left", None).unwrap();
    assert_eq!(c.neighbors, vec![neighbor("b", ScreenEdge::Left, None)]);
}

#[test]
fn two_peers_agree_on_their_border() {
    let (mut a, mut b) = (config("a"), config("b"));
    for _ in 0..3 {
        if let Ok(Message::AutoNeighbor { peer_id, edge, remove }) = pick(&mut a, "b", "top", None) {
            assert!(b.apply_auto_neighbor(peer_id, edge, remove));
        }
        let ours = a.neighbors.contains(&neighbor("b", ScreenEdge::Top, None));
        let theirs = b.neighbors.contains(&neighbor("a", ScreenEdge::Bottom, None));
        assert_eq!(ours, theirs);
    }
    assert!(!b.apply_auto_neighbor("a".into(), "sideways".into(), false));
    assert!(b.apply_auto_neighbor("a".into(), "left".into(), false));
}

fn settings() -> Settings {
    Settings {
        port: 1,
        discovery_port: 2,
        auto_connect: true,
        machine_name: "new".to_string(),
        camera_sharing_enabled: true,
        audio_sharing_enabled: true,
        is_primary_km_device: true,
        clipboard_sync_enabled: false,
    }
}

#[test]
fn settings_are_taken_over_and_pushed_by_hosts() {
    let mut host = config("me");
    assert_eq!(
        host.update_settings(settings()),
        Some(Message::ConfigSync { clipboard_sync_enabled: false })
    );
    assert_eq!((host.port, host.discovery_port, host.machine_name.as_str()), (1, 2, "new"));
    assert!(host.is_primary_km_device && host.auto_connect);
    let mut unnamed = settings();
    unnamed.machine_name = String::new();
    host.update_settings(unnamed);
    assert_eq!(host.machine_name, "new");
}

#[test]
fn agents_are_never_primary() {
    let mut agent = config("me");
    agent.complete_setup(true, "10.0.0.1:24800".to_string());
    assert!(!agent.is_primary_km_device && !agent.is_controller());
    assert_eq!(agent.update_settings(settings()), None);
    assert!(!agent.is_primary_km_device);
    assert_eq!(agent.startup_host(), Some("10.0.0.1:24800".to_string()));
    agent.complete_setup(true, String::new());
    assert_eq!(agent.startup_host(), None);
    let mut host = config("me");
    host.is_first_run = true;
    assert!(host.get_setup_state());
    host.complete_setup(false, "x".to_string());
    assert!(!host.get_setup_state() && host.is_controller());
    assert_eq!(host.startup_host(), None);
}

#[test]
fn only_agents_follow_the_host() {
    let mut host = config("me");
    host.apply_config_sync(false);
    assert!(host.clipboard_sync_enabled);
    host.agent_mode = true;
    host.apply_config_sync(false);
    assert!(!host.clipboard_sync_enabled);
}

#[test]
fn trusted_hosts_are_kept_once() {
    let mut c = config("me");
    assert!(c.add_trusted_host("a".into(), "A".into()));
    assert!(c.add_trusted_host("b".into(), "B".into()));
    assert!(!c.add_trusted_host("a".into(), "again".into()));
    assert_eq!(c.trusted_hosts.len(), 2);
    assert!(c.is_trusted_host(&"b".to_string()));
    c.remove_trusted_host(&"a".to_string());
    assert!(!c.is_trusted_host(&"a".to_string()));
    assert_eq!(c.trusted_hosts.len(), 1);
}

#[test]
fn the_first_certificate_is_pinned() {
    let mut c = config("me");
    assert!(c.trusted_fingerprints().is_empty());
    assert!(c.pin_first_use("a".into(), "A".into(), "AA:BB".into()));
    assert!(!c.pin_first_use("b".into(), "B".into(), "CC:DD".into()));
    assert_eq!(c.trusted_fingerprints(), vec!["AA:BB".to_string()]);
}

fn directories(set: bool) -> Directories {
    let value = |v: &str| if set { Some(v.to_string()) } else { None };
    Directories {
        appdata: value("AD"),
        user_profile: value("UP"),
        home: value("/h"),
        xdg_config_home: None,
    }
}

#[test]
fn paths_follow_the_platform() {
    let d = directories(true);
    let n = directories(false);
    assert_eq!(config_path(Platform::Windows, &d), ["AD", "shareflow", "config.json"]);
    assert_eq!(
        config_path(Platform::MacOs, &d),
        ["/h", "Library/Application Support", "shareflow", "config.json"]
    );
    assert_eq!(config_path(Platform::Other, &d), ["/h", ".config", "shareflow", "config.json"]);
    let mut x = directories(true);
    x.xdg_config_home = Some("/x".to_string());
    assert_eq!(config_path(Platform::Other, &x), ["/x", "shareflow", "config.json"]);
    assert_eq!(config_path(Platform::Other, &n), [".", ".config", "shareflow", "config.json"]);
    assert_eq!(data_dir(Platform::Windows, &n), [".", "shareflow"]);
    assert_eq!(data_dir(Platform::MacOs, &d), ["/h", "Library/Application Support/shareflow"]);
    assert_eq!(data_dir(Platform::Other, &d), [".", "shareflow"]);
    assert_eq!(receive_dir(Platform::Windows, &d), ["UP", "Downloads", "ShareFlow"]);
    assert_eq!(receive_dir(Platform::Other, &d), ["/h", "Downloads", "ShareFlow"]);
    assert_eq!(receive_dir(Platform::MacOs, &n), ["ShareFlow_Downloads"]);
    assert_eq!(crash_log_path(Platform::Windows, &d), ["AD", "shareflow", "crash.log"]);
    assert_eq!(
        crash_log_path(Platform::MacOs, &d),
        ["/h", "Library", "Application Support", "shareflow", "crash.log"]
    );
    assert_eq!(
        crash_log_path(Platform::Other, &n),
        [".", ".local", "share", "shareflow", "crash.log"]
    );
}

#[test]
fn the_host_name_comes_from_the_first_source_that_has_one() {
    let mut names = HostNames {
        computer_name: Some("PC".to_string()),
        hostname: Some(String::new()),
        host: None,
        command_output: Some(" mac.local\n".to_string()),
    };
    assert_eq!(hostname(Platform::Windows, &names), "PC");
    assert!(needs_hostname_command(Platform::MacOs, &names));
    assert!(!needs_hostname_command(Platform::Windows, &names));
    assert_eq!(hostname(Platform::MacOs, &names), "mac.local");
    names.host = Some("h".to_string());
    assert_eq!(hostname(Platform::Other, &names), "h");
    names.hostname = Some("n".to_string());
    assert_eq!(hostname(Platform::Other, &names), "n");
    let none = HostNames { computer_name: None, hostname: None, host: None, command_output: Some("\n".into()) };
    assert_eq!(hostname(Platform::Windows, &none), "Unknown-PC");
    assert_eq!(hostname(Platform::Other, &none), "Unknown-PC");
}

#[test]
fn trimming_agrees_with_the_standard_library() {
    for c in (0..0x11_0000u32).filter_map(char::from_u32) {
        if c.is_whitespace() || c < '\u{3100}' {
            let s = format!("{}x{}", c, c);
            assert_eq!(trim(&s), s.trim(), "{:?}", c);
        }
    }
    assert_eq!(trim(" \t"), "");
    assert_eq!(trim(" a b "), "a b");
}
