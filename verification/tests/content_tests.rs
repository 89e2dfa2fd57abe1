use maxima::content::{DownloadQueue, QueuedGame};

fn game(offer: &str) -> QueuedGame {
    QueuedGame {
        offer_id: offer.to_string(),
        build_id: format!("build-{}", offer),
        path: format!("/games/{}", offer),
        slug: offer.to_lowercase(),
        wine_prefix: None,
    }
}

fn ids(games: &[QueuedGame]) -> Vec<String> {
    games.iter().map(|g| g.offer_id.clone()).collect()
}

fn current_id(q: &DownloadQueue) -> Option<String> {
    q.current().as_ref().map(|g| g.offer_id().clone())
}

#[test]
fn queued_game_default_and_getters() {
    let g = QueuedGame::default();
    assert_eq!(g.offer_id(), "");
    assert!(g.wine_prefix().is_none());
    let h = game("A");
    assert_eq!(h.build_id(), "build-A");
    assert_eq!(h.path(), "/games/A");
    assert_eq!(h.slug(), "a");
    let c = h.clone();
    assert_eq!(c.offer_id(), "A");
}

#[test]
fn first_install_starts_at_once() {
    let mut q = DownloadQueue::default();
    assert!(q.add_install(game("A"), false));
    assert_eq!(current_id(&q), Some("A".to_string()));
    assert!(q.queued().is_empty());
}

#[test]
fn install_waits_while_something_downloads() {
    let mut q = DownloadQueue::default();
    assert!(!q.add_install(game("A"), true));
    assert_eq!(current_id(&q), None);
    assert_eq!(ids(q.queued()), vec!["A"]);
    assert!(!q.add_install(game("B"), false));
    assert_eq!(ids(q.queued()), vec!["A", "B"]);
}

#[test]
fn push_to_current_requeues_previous() {
    let mut q = DownloadQueue::default();
    q.push_to_current(game("A"));
    q.push_to_current(game("B"));
    assert_eq!(current_id(&q), Some("B".to_string()));
    assert_eq!(ids(q.queued()), vec!["A"]);
    q.install_now(game("C"));
    assert_eq!(current_id(&q), Some("C".to_string()));
    assert_eq!(ids(q.queued()), vec!["A"]);
}

#[test]
fn cancel_forgets_the_offer_everywhere() {
    let mut q = DownloadQueue::default();
    q.push_to_current(game("A"));
    q.add_install(game("B"), true);
    q.add_install(game("A"), true);
    q.completed.push(game("A"));
    q.completed.push(game("C"));
    q.paused = true;
    q.cancel_install("A");
    assert_eq!(current_id(&q), None);
    assert_eq!(ids(q.queued()), vec!["B"]);
    assert_eq!(ids(q.completed()), vec!["C"]);
    assert!(!q.paused());
}

#[test]
fn pause_only_when_that_offer_downloads() {
    let mut q = DownloadQueue::default();
    assert!(!q.pause_install(None, "A"));
    assert!(!q.paused());
    assert!(!q.pause_install(Some("B"), "A"));
    assert!(!q.paused());
    assert!(q.pause_install(Some("A"), "A"));
    assert!(q.paused());
}

#[test]
fn move_to_top_swaps_current_to_front() {
    let mut q = DownloadQueue::default();
    q.push_to_current(game("A"));
    q.add_install(game("B"), true);
    q.add_install(game("C"), true);
    let moved = q.move_install_to_top("C").unwrap();
    assert_eq!(moved.offer_id(), "C");
    assert_eq!(current_id(&q), Some("C".to_string()));
    assert_eq!(ids(q.queued()), vec!["A", "B"]);
    assert!(q.move_install_to_top("C").is_none());
    assert!(q.move_install_to_top("Z").is_none());
    assert_eq!(ids(q.queued()), vec!["A", "B"]);
}

#[test]
fn finish_then_next() {
    let mut q = DownloadQueue::default();
    q.push_to_current(game("A"));
    q.add_install(game("B"), true);
    q.paused = true;
    assert!(q.next_install().is_none());
    let done = q.finish_current();
    assert_eq!(done.offer_id(), "A");
    assert!(!q.paused());
    assert_eq!(ids(q.completed()), vec!["A"]);
    assert_eq!(current_id(&q), None);
    let next = q.next_install().unwrap();
    assert_eq!(next.offer_id(), "B");
    assert_eq!(current_id(&q), Some("B".to_string()));
    assert!(q.queued().is_empty());
    // With nothing waiting, the current game is handed back.
    assert_eq!(q.next_install().unwrap().offer_id(), "B");
}
