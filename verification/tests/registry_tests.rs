use ezsockets::contains_id;
use ezsockets::Server;

#[test]
fn accept_grants_lowest_ids_in_order() {
    let mut server = Server::create();
    let h0 = server.accept(10);
    let h1 = server.accept(11);
    let h2 = server.accept(12);
    assert_eq!(h0.id, 0);
    assert_eq!(h1.id, 1);
    assert_eq!(h2.id, 2);
    assert_eq!(h0.channel, 10);
    assert_eq!(h1.channel, 11);
    assert_eq!(h2.channel, 12);
}

#[test]
fn id_reused_only_after_disconnect() {
    let mut server = Server::create();
    server.accept(10);
    server.accept(11);
    server.accept(12);
    // while 1 is live, a new accept must not reuse it
    let h3 = server.accept(13);
    assert_eq!(h3.id, 3);
    // free 1; the next accept reuses exactly that identity
    assert!(server.disconnected(1));
    let h = server.accept(14);
    assert_eq!(h.id, 1);
    assert_eq!(h.channel, 14);
}

#[test]
fn disconnect_of_absent_id_reports_false() {
    let mut server = Server::create();
    let h = server.accept(10);
    assert!(server.disconnected(h.id));
    // a second report of the same identity is not live any more
    assert!(!server.disconnected(h.id));
    assert!(!server.disconnected(42));
}

#[test]
fn contains_and_get_follow_the_registry() {
    let mut server = Server::create();
    let h = server.accept(7);
    assert!(server.contains(h.id));
    let got = server.get(h.id).unwrap();
    assert_eq!(got.id, h.id);
    assert_eq!(got.channel, 7);
    assert!(!server.contains(9));
    assert!(server.get(9).is_none());
    server.disconnected(h.id);
    assert!(!server.contains(h.id));
    assert!(server.get(h.id).is_none());
}

#[test]
fn broadcast_targets_exclude_exactly_the_excluded() {
    let mut server = Server::create();
    server.accept(10);
    server.accept(11);
    server.accept(12);
    server.accept(13);
    let targets = server.call(&vec![1, 3]);
    let ids: Vec<usize> = targets.iter().map(|h| h.id).collect();
    assert_eq!(ids, vec![0, 2]);
    let channels: Vec<u64> = targets.iter().map(|h| h.channel).collect();
    assert_eq!(channels, vec![10, 12]);
}

#[test]
fn broadcast_with_empty_exclusion_reaches_everyone() {
    let mut server = Server::create();
    server.accept(10);
    server.accept(11);
    let targets = server.call(&vec![]);
    let ids: Vec<usize> = targets.iter().map(|h| h.id).collect();
    assert_eq!(ids, vec![0, 1]);
}

#[test]
fn broadcast_excluding_everyone_reaches_nobody() {
    let mut server = Server::create();
    server.accept(10);
    server.accept(11);
    let targets = server.call(&vec![0, 1]);
    assert!(targets.is_empty());
}

#[test]
fn broadcast_skips_disconnected_connections() {
    let mut server = Server::create();
    server.accept(10);
    server.accept(11);
    server.accept(12);
    server.disconnected(1);
    let targets = server.call(&vec![]);
    let ids: Vec<usize> = targets.iter().map(|h| h.id).collect();
    assert_eq!(ids, vec![0, 2]);
}

#[test]
fn contains_id_finds_members_only() {
    let ids: Vec<usize> = vec![3, 5, 8];
    assert!(contains_id(&ids, 3));
    assert!(contains_id(&ids, 8));
    assert!(!contains_id(&ids, 4));
    assert!(!contains_id(&Vec::new(), 0));
}
