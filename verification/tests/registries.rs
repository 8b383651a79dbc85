use acerola::messages::SyncDirection;
use acerola::registries::{PendingComicSyncRegistry, PendingHistoryEntryRegistry};

#[test]
fn comic_sync_registry_take_removes_the_pending_entry() {
    let mut registry = PendingComicSyncRegistry::new();
    registry.set("peer-1".to_string(), "Berserk".to_string(), SyncDirection::Push, vec![]);

    assert_eq!(
        registry.take("peer-1"),
        Some(("Berserk".to_string(), SyncDirection::Push, vec![]))
    );
    assert_eq!(registry.take("peer-1"), None);
}

#[test]
fn comic_sync_registry_take_without_a_pending_entry_returns_none() {
    let mut registry = PendingComicSyncRegistry::new();
    assert_eq!(registry.take("peer-unknown"), None);
}

#[test]
fn history_entry_registry_take_removes_the_pending_entry() {
    let mut registry = PendingHistoryEntryRegistry::new();
    registry.set("peer-1".to_string(), "Berserk".to_string());

    assert_eq!(registry.take("peer-1"), Some("Berserk".to_string()));
    assert_eq!(registry.take("peer-1"), None);
}

#[test]
fn history_entry_registry_take_without_a_pending_entry_returns_none() {
    let mut registry = PendingHistoryEntryRegistry::new();
    assert_eq!(registry.take("peer-unknown"), None);
}

#[test]
fn comic_sync_registry_keeps_the_latest_scope_per_peer() {
    let mut registry = PendingComicSyncRegistry::new();
    registry.set("peer-1".to_string(), "Berserk".to_string(), SyncDirection::Push, vec![1]);
    registry.set("peer-2".to_string(), "Vagabond".to_string(), SyncDirection::Pull, vec![]);
    registry.set("peer-1".to_string(), "Monster".to_string(), SyncDirection::Pull, vec![3, 4]);
    assert_eq!(
        registry.take("peer-1"),
        Some(("Monster".to_string(), SyncDirection::Pull, vec![3, 4]))
    );
    assert_eq!(
        registry.take("peer-2"),
        Some(("Vagabond".to_string(), SyncDirection::Pull, vec![]))
    );
}
