use funder::ephemeral::{
    Ephemeral, EphemeralMutation, FreezeGuard, FreezeGuardMutation, Liveness, LivenessMutation,
};
use funder::router::RouterState;

#[test]
fn liveness_follows_mutations() {
    let mut liveness = Liveness::new();
    assert!(!liveness.is_online(&[1u8; 32]));
    liveness.mutate(&LivenessMutation::SetOnline([1u8; 32]));
    liveness.mutate(&LivenessMutation::SetOnline([2u8; 32]));
    liveness.mutate(&LivenessMutation::SetOnline([1u8; 32]));
    assert!(liveness.is_online(&[1u8; 32]));
    assert!(liveness.is_online(&[2u8; 32]));
    assert!(!liveness.is_online(&[3u8; 32]));
    assert_eq!(liveness.friends.len(), 2);
    liveness.mutate(&LivenessMutation::SetOffline([1u8; 32]));
    liveness.mutate(&LivenessMutation::SetOffline([3u8; 32]));
    assert!(!liveness.is_online(&[1u8; 32]));
    assert!(liveness.is_online(&[2u8; 32]));
    assert_eq!(liveness.friends, vec![[2u8; 32]]);
}

#[test]
fn freeze_guard_counts_per_friend() {
    let mut guard = FreezeGuard::new(&[9u8; 32]);
    assert_eq!(guard.local_public_key, [9u8; 32]);
    assert_eq!(guard.get_frozen(&[1u8; 32]), 0);
    guard.mutate(&FreezeGuardMutation::AddFrozenCredit([1u8; 32], 10));
    guard.mutate(&FreezeGuardMutation::AddFrozenCredit([2u8; 32], 5));
    guard.mutate(&FreezeGuardMutation::AddFrozenCredit([1u8; 32], 7));
    assert_eq!(guard.get_frozen(&[1u8; 32]), 17);
    assert_eq!(guard.get_frozen(&[2u8; 32]), 5);
    guard.mutate(&FreezeGuardMutation::SubFrozenCredit([1u8; 32], 7));
    assert_eq!(guard.get_frozen(&[1u8; 32]), 10);
    guard.mutate(&FreezeGuardMutation::SubFrozenCredit([1u8; 32], 11));
    assert_eq!(guard.get_frozen(&[1u8; 32]), 0);
    guard.mutate(&FreezeGuardMutation::AddFrozenCredit([2u8; 32], u128::MAX));
    assert_eq!(guard.get_frozen(&[2u8; 32]), u128::MAX);
    guard.mutate(&FreezeGuardMutation::SubFrozenCredit([3u8; 32], 1));
    assert_eq!(guard.get_frozen(&[3u8; 32]), 0);
}

#[test]
fn ephemeral_mutations_go_to_their_part() {
    let router = RouterState::new([9u8; 32], 16);
    let mut ephemeral = Ephemeral::new(&router);
    assert_eq!(ephemeral.freeze_guard.local_public_key, [9u8; 32]);
    assert!(ephemeral.liveness.friends.is_empty());
    assert!(ephemeral.freeze_guard.frozen_to.is_empty());

    ephemeral.mutate(&EphemeralMutation::LivenessMutation(LivenessMutation::SetOnline([1u8; 32])));
    assert!(ephemeral.liveness.is_online(&[1u8; 32]));
    assert!(ephemeral.freeze_guard.frozen_to.is_empty());

    ephemeral.mutate(&EphemeralMutation::FreezeGuardMutation(
        FreezeGuardMutation::AddFrozenCredit([2u8; 32], 3),
    ));
    assert_eq!(ephemeral.freeze_guard.get_frozen(&[2u8; 32]), 3);
    assert_eq!(ephemeral.liveness.friends, vec![[1u8; 32]]);

    ephemeral.mutate(&EphemeralMutation::LivenessMutation(LivenessMutation::SetOffline([1u8; 32])));
    assert!(!ephemeral.liveness.is_online(&[1u8; 32]));
    assert_eq!(ephemeral.freeze_guard.get_frozen(&[2u8; 32]), 3);
}
