use std::cell::Cell;
use wgmon::cache::{ModTime, PeerNameCache};
use wgmon::peers::{dump_peers, load_peers, parse_peer_line, PeerNameMap};

fn lines(v: &[&str]) -> Vec<String> {
    v.iter().map(|s| s.to_string()).collect()
}

#[test]
fn parse_line_with_one_colon() {
    let r = parse_peer_line("abc123:alice").unwrap();
    assert_eq!(r.public_key, "abc123");
    assert_eq!(r.friendly_name, "alice");
}

#[test]
fn parse_line_rejects_other_shapes() {
    assert!(parse_peer_line("no colon here").is_none());
    assert!(parse_peer_line("a:b:c").is_none());
    assert!(parse_peer_line("").is_none());
    let r = parse_peer_line(":").unwrap();
    assert_eq!(r.public_key, "");
    assert_eq!(r.friendly_name, "");
}

#[test]
fn parse_keeps_spaces_and_non_ascii() {
    let r = parse_peer_line("kéy= :  Zoë ").unwrap();
    assert_eq!(r.public_key, "kéy= ");
    assert_eq!(r.friendly_name, "  Zoë ");
}

#[test]
fn load_counts_only_well_formed_lines() {
    let m = load_peers(&lines(&["k1:alice", "garbage", "k2:bob", "a:b:c", "", "k3:carol"]));
    assert_eq!(m.len(), 3);
    assert_eq!(m.get("k1").unwrap(), "alice");
    assert_eq!(m.get("k2").unwrap(), "bob");
    assert_eq!(m.get("k3").unwrap(), "carol");
    assert!(m.get("garbage").is_none());
}

#[test]
fn load_later_line_wins_for_same_key() {
    let m = load_peers(&lines(&["k:first", "k:second"]));
    assert_eq!(m.len(), 1);
    assert_eq!(m.get("k").unwrap(), "second");
}

#[test]
fn load_of_nothing_is_empty() {
    assert_eq!(load_peers(&Vec::new()).len(), 0);
}

#[test]
fn map_insert_replaces() {
    let mut m = PeerNameMap::new();
    m.insert("a".to_string(), "x".to_string());
    m.insert("b".to_string(), "y".to_string());
    m.insert("a".to_string(), "z".to_string());
    assert_eq!(m.len(), 2);
    assert_eq!(m.get("a").unwrap(), "z");
    assert_eq!(dump_peers(&m), "a is z\nb is y\n");
}

#[test]
fn cache_same_modtime_does_not_reparse() {
    let mut cache = PeerNameCache::new();
    let t = ModTime { secs: 1000, nanos: 5 };
    let reads = Cell::new(0);
    let m1 = cache.current_mapping(t, || {
        reads.set(reads.get() + 1);
        lines(&["abc:alice"])
    });
    let m2 = cache.current_mapping(t, || {
        reads.set(reads.get() + 1);
        lines(&["abc:mallory"])
    });
    assert_eq!(reads.get(), 1);
    assert_eq!(cache.load_count(), 1);
    assert_eq!(m1.get("abc").unwrap(), "alice");
    assert_eq!(m2.get("abc").unwrap(), "alice");
    assert_eq!(m2.len(), 1);
}

#[test]
fn cache_new_modtime_reparses_once() {
    let mut cache = PeerNameCache::new();
    let t1 = ModTime { secs: 1000, nanos: 0 };
    let t2 = ModTime { secs: 1001, nanos: 0 };
    cache.current_mapping(t1, || lines(&["abc:alice"]));
    let m = cache.current_mapping(t2, || lines(&["abc:bob", "def:dave"]));
    assert_eq!(cache.load_count(), 2);
    assert_eq!(m.get("abc").unwrap(), "bob");
    assert_eq!(m.len(), 2);
    let again = cache.current_mapping(t2, || panic!("file read again"));
    assert_eq!(cache.load_count(), 2);
    assert_eq!(again.get("def").unwrap(), "dave");
    assert_eq!(cache.get_loaded_peers_modtime(), t2);
}

#[test]
fn cache_first_access_at_epoch_loads() {
    let mut cache = PeerNameCache::new();
    assert_eq!(cache.get_loaded_peers_modtime(), ModTime::epoch());
    let m = cache.current_mapping(ModTime::epoch(), || lines(&["abc:alice"]));
    assert_eq!(cache.load_count(), 1);
    assert_eq!(m.get("abc").unwrap(), "alice");
    let again = cache.current_mapping(ModTime::epoch(), || panic!("cached"));
    assert_eq!(cache.load_count(), 1);
    assert_eq!(again.get("abc").unwrap(), "alice");
}

#[test]
fn cache_missing_file_gives_empty_map_once() {
    let mut cache = PeerNameCache::new();
    let m = cache.current_mapping(ModTime::epoch(), Vec::new);
    assert_eq!(m.len(), 0);
    assert_eq!(cache.load_count(), 1);
    let again = cache.current_mapping(ModTime::epoch(), || panic!("no re-read"));
    assert_eq!(again.len(), 0);
    assert_eq!(cache.load_count(), 1);
}

#[test]
fn cache_save_and_get() {
    let mut cache = PeerNameCache::new();
    let t = ModTime { secs: 7, nanos: 9 };
    cache.save_loaded_peers(t, load_peers(&lines(&["p:q"])));
    assert_eq!(cache.get_loaded_peers_modtime(), t);
    assert_eq!(cache.get_loaded_peers_map().get("p").unwrap(), "q");
    assert_eq!(cache.load_count(), 0);
}
