use firefly_runtime::error::HostError;
use firefly_runtime::scores::{
    add_friend_score, add_my_score, add_progress_friend, add_progress_me, insert_friend_score,
    insert_my_score, AppStats, BadgeProgress, BoardScores, FriendScore,
};

#[test]
fn test_insert_my_score() {
    let mut scores = [0, 0, 0, 0, 0, 0, 0, 0];
    insert_my_score(&mut scores, 13);
    assert_eq!(scores, [13, 0, 0, 0, 0, 0, 0, 0]);
    insert_my_score(&mut scores, 20);
    assert_eq!(scores, [20, 13, 0, 0, 0, 0, 0, 0]);
    insert_my_score(&mut scores, 13);
    assert_eq!(scores, [20, 13, 13, 0, 0, 0, 0, 0]);
    insert_my_score(&mut scores, 15);
    assert_eq!(scores, [20, 15, 13, 13, 0, 0, 0, 0]);
    insert_my_score(&mut scores, 7);
    assert_eq!(scores, [20, 15, 13, 13, 7, 0, 0, 0]);
    insert_my_score(&mut scores, 6);
    assert_eq!(scores, [20, 15, 13, 13, 7, 6, 0, 0]);
    insert_my_score(&mut scores, 7);
    assert_eq!(scores, [20, 15, 13, 13, 7, 7, 6, 0]);
    insert_my_score(&mut scores, 3);
    assert_eq!(scores, [20, 15, 13, 13, 7, 7, 6, 3]);
    insert_my_score(&mut scores, 2);
    assert_eq!(scores, [20, 15, 13, 13, 7, 7, 6, 3]);
    insert_my_score(&mut scores, 3);
    assert_eq!(scores, [20, 15, 13, 13, 7, 7, 6, 3]);
    insert_my_score(&mut scores, 1);
    assert_eq!(scores, [20, 15, 13, 13, 7, 7, 6, 3]);
    insert_my_score(&mut scores, 14);
    assert_eq!(scores, [20, 15, 14, 13, 13, 7, 7, 6]);
}

fn fs(index: u16, score: i16) -> FriendScore {
    FriendScore { index, score }
}

#[test]
fn friend_score_replaces_same_friend() {
    let mut board = [fs(1, 50), fs(2, 40), fs(1, 30), fs(3, 20), fs(0, 0), fs(0, 0), fs(0, 0), fs(0, 0)];
    insert_friend_score(&mut board, 1, 45);
    // the lower score of friend 1 is dropped, others stay
    assert_eq!(board, [fs(1, 50), fs(1, 45), fs(2, 40), fs(3, 20), fs(0, 0), fs(0, 0), fs(0, 0), fs(0, 0)]);
}

#[test]
fn friend_score_pushes_out_lowest() {
    let mut board = [fs(1, 80), fs(2, 70), fs(3, 60), fs(4, 50), fs(5, 40), fs(6, 30), fs(7, 20), fs(8, 10)];
    insert_friend_score(&mut board, 9, 65);
    assert_eq!(board, [fs(1, 80), fs(2, 70), fs(9, 65), fs(3, 60), fs(4, 50), fs(5, 40), fs(6, 30), fs(7, 20)]);
    // too low to get on the board
    insert_friend_score(&mut board, 9, 5);
    assert_eq!(board, [fs(1, 80), fs(2, 70), fs(9, 65), fs(3, 60), fs(4, 50), fs(5, 40), fs(6, 30), fs(7, 20)]);
}

fn make_stats() -> Option<AppStats> {
    Some(AppStats {
        badges: vec![
            BadgeProgress { new: false, done: 0, goal: 10 },
            BadgeProgress { new: false, done: 9, goal: 10 },
        ],
        scores: vec![BoardScores { me: [0; 8], friends: [fs(0, 0); 8] }],
    })
}

#[test]
fn progress_is_clamped_and_marks_new() {
    let mut stats = make_stats();
    let mut dirty = false;
    let res = add_progress_me(&mut stats, &mut dirty, 2, 5);
    assert_eq!(res, Ok(10 << 16 | 10));
    assert!(dirty);
    let st = stats.as_ref().unwrap();
    assert_eq!(st.badges[1], BadgeProgress { new: true, done: 10, goal: 10 });

    let res = add_progress_me(&mut stats, &mut dirty, 1, -3);
    assert_eq!(res, Ok(10));
    let res = add_progress_me(&mut stats, &mut dirty, 1, 0);
    assert_eq!(res, Ok(10));
}

#[test]
fn progress_errors() {
    let mut none: Option<AppStats> = None;
    let mut dirty = false;
    assert_eq!(add_progress_me(&mut none, &mut dirty, 1, 1), Err(HostError::NoStats));
    let mut stats = make_stats();
    assert_eq!(add_progress_me(&mut stats, &mut dirty, 3, 1), Err(HostError::NoBadge(3)));
    assert_eq!(add_progress_me(&mut stats, &mut dirty, 1, 40000), Err(HostError::ValueTooBig));
    assert!(!dirty);
    let mut empty = Some(AppStats { badges: vec![], scores: vec![] });
    assert_eq!(add_progress_me(&mut empty, &mut dirty, 1, 1), Err(HostError::NoBadges));
    assert_eq!(add_my_score(&mut empty, 1, 1), Err(HostError::NoBoards));
}

#[test]
fn friend_progress() {
    let mut stats = make_stats();
    let mut dirty = false;
    let mut peer = vec![3, 0];
    let res = add_progress_friend(&mut stats, &mut dirty, &mut peer, 1, 4);
    assert_eq!(res, Ok(7 << 16 | 10));
    assert_eq!(peer, vec![7, 0]);
    assert!(dirty);
}

#[test]
fn scores_return_best() {
    let mut stats = make_stats();
    assert_eq!(add_my_score(&mut stats, 1, 12), Ok(12));
    assert_eq!(add_my_score(&mut stats, 1, 7), Ok(12));
    assert_eq!(add_my_score(&mut stats, 2, 7), Err(HostError::NoBoard(2)));
    let mut peer = vec![5];
    assert_eq!(add_friend_score(&mut stats, 4, &mut peer, 1, 9), Ok(9));
    assert_eq!(add_friend_score(&mut stats, 4, &mut peer, 1, 3), Ok(9));
    let st = stats.as_ref().unwrap();
    assert_eq!(st.scores[0].friends[0], fs(4, 9));
    assert_eq!(st.scores[0].me[0], 12);
}
