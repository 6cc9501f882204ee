use wgmon::cache::{ModTime, PeerNameCache};
use wgmon::peers::load_peers;
use wgmon::status::{field_value_of, get_wgg, merge, StyledSpan, Tone};
use wgmon::text::{split_lines, trim_range};

fn plain(spans: &[StyledSpan]) -> String {
    spans.iter().map(|s| s.text.as_str()).collect()
}

fn peers(v: &[&str]) -> wgmon::peers::PeerNameMap {
    load_peers(&v.iter().map(|s| s.to_string()).collect())
}

#[test]
fn peer_line_gets_friendly_name() {
    let out = merge("peer: abc123", &peers(&["abc123:alice"]));
    assert_eq!(plain(&out), "peer: abc123\n  friendly-name: alice\n");
    let named: Vec<&StyledSpan> = out.iter().filter(|s| s.tone == Tone::FriendlyName).collect();
    assert_eq!(named.len(), 2);
    assert_eq!(named[0].text, "friendly-name");
    assert_eq!(named[1].text, "alice");
}

#[test]
fn unmapped_peer_gets_no_annotation() {
    let out = merge("peer: zzz\n  endpoint: 1.2.3.4:51820\n", &peers(&["abc123:alice"]));
    assert_eq!(plain(&out), "peer: zzz\n  endpoint: 1.2.3.4:51820\n");
    assert!(out.iter().all(|s| s.tone == Tone::Plain));
}

#[test]
fn peer_key_is_trimmed_before_lookup() {
    let out = merge("peer:\t abc123  \r\n", &peers(&["abc123:alice"]));
    assert_eq!(plain(&out), "peer:\t abc123  \n  friendly-name: alice\n");
}

#[test]
fn interface_line_is_emphasized() {
    let out = merge("interface:   wg0 \nlistening port: 51820", &peers(&[]));
    assert_eq!(plain(&out), "interface: wg0\nlistening port: 51820\n");
    assert_eq!(out[0].text, "interface");
    assert_eq!(out[0].tone, Tone::Interface);
    assert_eq!(out[2].text, "wg0");
    assert_eq!(out[2].tone, Tone::Interface);
}

#[test]
fn labels_are_anchored_and_case_sensitive() {
    let out = merge(" peer: abc123\nPeer: abc123\npeer:", &peers(&["abc123:alice"]));
    assert_eq!(plain(&out), " peer: abc123\nPeer: abc123\npeer:\n");
}

#[test]
fn whole_status_text() {
    let wg = "interface: wg0\n  public key: K\n\npeer: abc123\n  allowed ips: 10.0.0.2/32\npeer: def\n";
    let out = merge(wg, &peers(&["abc123:alice", "def:dave"]));
    assert_eq!(
        plain(&out),
        "interface: wg0\n  public key: K\n\npeer: abc123\n  friendly-name: alice\n  allowed ips: 10.0.0.2/32\npeer: def\n  friendly-name: dave\n"
    );
}

#[test]
fn field_value_cases() {
    assert_eq!(field_value_of("peer: x ", "peer"), Some("x".to_string()));
    assert_eq!(field_value_of("peer: ", "peer"), Some("".to_string()));
    assert_eq!(field_value_of("peer:", "peer"), None);
    assert_eq!(field_value_of("peers: x", "peer"), None);
}

#[test]
fn split_lines_like_std() {
    for s in ["", "a", "a\n", "a\r\nb\n\nc\r", "\n\n", "x\ry\n"] {
        let expected: Vec<String> = s.lines().map(|l| l.to_string()).collect();
        assert_eq!(split_lines(s), expected, "input {:?}", s);
    }
}

#[test]
fn trim_uses_unicode_whitespace() {
    let s = "\u{3000} a b\u{a0}\n";
    assert_eq!(trim_range(s, 0, 6), "a b");
    assert_eq!(trim_range("   ", 0, 3), "");
}

#[test]
fn unprivileged_status_is_fixed_message() {
    let mut cache = PeerNameCache::new();
    let out = get_wgg(false, "peer: abc", &mut cache, ModTime { secs: 3, nanos: 0 }, || panic!("no read"));
    assert_eq!(plain(&out), "You must be root to run `wg`");
    assert_eq!(cache.load_count(), 0);
}

#[test]
fn privileged_status_merges_cached_names() {
    let mut cache = PeerNameCache::new();
    let t = ModTime { secs: 3, nanos: 0 };
    let out = get_wgg(true, "peer: abc", &mut cache, t, || vec!["abc:alice".to_string()]);
    assert_eq!(plain(&out), "peer: abc\n  friendly-name: alice\n");
    let out2 = get_wgg(true, "peer: abc", &mut cache, t, || panic!("cached"));
    assert_eq!(plain(&out2), "peer: abc\n  friendly-name: alice\n");
    assert_eq!(cache.load_count(), 1);
}
