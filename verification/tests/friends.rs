use firefly_runtime::connection::app_intro;
use firefly_runtime::friends::{friend_lookup, friend_record, FriendLookup};
use firefly_runtime::scores::{AppStats, BadgeProgress, BoardScores, FriendScore};

#[test]
fn friend_ids() {
    // Without a friends file the device is the first friend.
    assert_eq!(friend_lookup(None, b"amy"), FriendLookup::New(1));
    let file = friend_record(b"amy");
    assert_eq!(file, vec![3, b'a', b'm', b'y']);
    assert_eq!(friend_lookup(Some(&file), b"amy"), FriendLookup::Known(1));
    // Empty records are skipped and don't count.
    let mut file = vec![0, 3, b'a', b'm', b'y', 0, 3, b'b', b'o', b'b'];
    assert_eq!(friend_lookup(Some(&file), b"bob"), FriendLookup::Known(2));
    // A new name gets the ID after the next one, and is then found one lower.
    assert_eq!(friend_lookup(Some(&file), b"eve"), FriendLookup::New(4));
    file.extend(friend_record(b"eve"));
    assert_eq!(friend_lookup(Some(&file), b"eve"), FriendLookup::Known(3));
    // Names longer than 16 bytes, truncated files, and oversized records.
    assert_eq!(friend_lookup(None, b"a-name-longer-than-16"), FriendLookup::NoId);
    assert_eq!(friend_lookup(Some(&[5, b'a', b'b']), b"bob"), FriendLookup::NoId);
    assert_eq!(friend_lookup(Some(&[17, b'a']), b"bob"), FriendLookup::Invalid);
    assert_eq!(friend_lookup(Some(&[3, b'b', b'o', b'b', 17]), b"bob"), FriendLookup::Known(1));
}

#[test]
fn intro_from_stats() {
    let intro = app_intro(&None, vec![1, 2], 7);
    assert!(intro.badges.is_empty());
    assert!(intro.scores.is_empty());
    assert_eq!(intro.stash, vec![1, 2]);
    assert_eq!(intro.seed, 7);
    let friend = FriendScore { index: 0, score: 0 };
    let stats = AppStats {
        badges: vec![
            BadgeProgress { new: false, done: 3, goal: 5 },
            BadgeProgress { new: true, done: 9, goal: 9 },
        ],
        scores: vec![BoardScores { me: [40, 30, 0, 0, 0, 0, 0, 0], friends: [friend; 8] }],
    };
    let intro = app_intro(&Some(stats), vec![], 1);
    assert_eq!(intro.badges, vec![3, 9]);
    assert_eq!(intro.scores, vec![40]);
}
