use vstd::prelude::*;
use crate::error::HostError;

verus! {

/// A friend's score on a board: the friend's index in the friends list and the score.
#[derive(Debug, Clone, Copy, PartialEq, Eq, Structural)]
pub struct FriendScore {
    pub index: u16,
    pub score: i16,
}

/// Progress of earning a badge.
#[derive(Debug, Clone, Copy, PartialEq, Eq, Structural)]
pub struct BadgeProgress {
    /// True if the badge was earned but not yet shown to the player.
    pub new: bool,
    /// How many points are already earned.
    pub done: u16,
    /// How many points are needed to earn the badge.
    pub goal: u16,
}

/// The scoreboard of a single board: the top local scores and the top friends' scores.
#[derive(Debug, Clone, Copy, PartialEq, Eq)]
pub struct BoardScores {
    pub me: [i16; 8],
    pub friends: [FriendScore; 8],
}

/// The app stats that the host functions modify: badges and boards.
pub struct AppStats {
    pub badges: Vec<BadgeProgress>,
    pub scores: Vec<BoardScores>,
}

/// Scores ordered from the highest to the lowest (ties allowed).
pub open spec fn sorted_desc(s: Seq<i16>) -> bool {
    forall|i: int, j: int| 0 <= i < j < s.len() ==> s[i] >= s[j]
}

/// Friends' scores ordered from the highest to the lowest (ties allowed).
pub open spec fn friends_sorted_desc(s: Seq<FriendScore>) -> bool {
    forall|i: int, j: int| 0 <= i < j < s.len() ==> s[i].score >= s[j].score
}

/// The position where a new personal score goes: before the first lower score.
pub open spec fn my_insert_pos(s: Seq<i16>, v: i16) -> int
    decreases s.len(),
{
    if s.len() == 0 {
        0
    } else if v > s[0] {
        0
    } else {
        1 + my_insert_pos(s.drop_first(), v)
    }
}

/// The personal board after a new score: the score is inserted before the first
/// lower score and the lowest score falls off. If no score is lower,
/// the board stays as it is.
pub open spec fn spec_insert_my_score(s: Seq<i16>, v: i16) -> Seq<i16> {
    let p = my_insert_pos(s, v);
    if p >= s.len() {
        s
    } else {
        s.take(p).push(v) + s.subrange(p, s.len() - 1)
    }
}

/// The position where a friend's new score goes: before the first score
/// that is not higher than it.
pub open spec fn friend_insert_pos(s: Seq<FriendScore>, v: i16) -> int
    decreases s.len(),
{
    if s.len() == 0 {
        0
    } else if !(v < s[0].score) {
        0
    } else {
        1 + friend_insert_pos(s.drop_first(), v)
    }
}

/// The first index of the friend's own score at or after the offset,
/// or the length of the board if the friend has no score there.
pub open spec fn friend_index_from(s: Seq<FriendScore>, id: u16, from: int) -> int
    decreases s.len() - from,
{
    if from >= s.len() {
        s.len() as int
    } else if s[from].index == id {
        from
    } else {
        friend_index_from(s, id, from + 1)
    }
}

/// The friends' board after a friend's new score.
///
/// The new score is inserted before the first score that is not higher than it.
/// To keep the board diverse, the score that drops out is the first lower score
/// of the same friend, if there is one; otherwise the lowest score drops out.
pub open spec fn spec_insert_friend_score(s: Seq<FriendScore>, id: u16, v: i16) -> Seq<FriendScore> {
    let p = friend_insert_pos(s, v);
    let q = friend_index_from(s, id, p);
    let dropped = if q < s.len() { q } else { s.len() - 1 };
    if p >= s.len() {
        s
    } else {
        s.take(p).push(FriendScore { index: id, score: v }) + s.subrange(p, dropped) + s.subrange(
            dropped + 1,
            s.len() as int,
        )
    }
}

proof fn lemma_my_insert_pos(s: Seq<i16>, v: i16, i: int)
    requires
        0 <= i <= s.len(),
        forall|k: int| 0 <= k < i ==> !(v > #[trigger] s[k]),
        i < s.len() ==> v > s[i],
    ensures
        my_insert_pos(s, v) == i,
    decreases i,
{
    if i > 0 {
        lemma_my_insert_pos(s.drop_first(), v, i - 1);
    }
}

proof fn lemma_friend_insert_pos(s: Seq<FriendScore>, v: i16, i: int)
    requires
        0 <= i <= s.len(),
        forall|k: int| 0 <= k < i ==> v < #[trigger] s[k].score,
        i < s.len() ==> !(v < s[i].score),
    ensures
        friend_insert_pos(s, v) == i,
    decreases i,
{
    if i > 0 {
        lemma_friend_insert_pos(s.drop_first(), v, i - 1);
    }
}

proof fn lemma_friend_index_from(s: Seq<FriendScore>, id: u16, from: int, i: int)
    requires
        0 <= from <= i <= s.len(),
        forall|k: int| from <= k < i ==> #[trigger] s[k].index != id,
        i < s.len() ==> s[i].index == id,
    ensures
        friend_index_from(s, id, from) == i,
    decreases i - from,
{
    if from < i {
        lemma_friend_index_from(s, id, from + 1, i);
    }
}

proof fn lemma_my_insert_pos_bounds(s: Seq<i16>, v: i16)
    ensures
        0 <= my_insert_pos(s, v) <= s.len(),
        forall|k: int| 0 <= k < my_insert_pos(s, v) ==> !(v > #[trigger] s[k]),
        my_insert_pos(s, v) < s.len() ==> v > s[my_insert_pos(s, v)],
    decreases s.len(),
{
    if s.len() > 0 && !(v > s[0]) {
        lemma_my_insert_pos_bounds(s.drop_first(), v);
        assert forall|k: int| 0 <= k < my_insert_pos(s, v) implies !(v > #[trigger] s[k]) by {
            if k > 0 {
                assert(s[k] == s.drop_first()[k - 1]);
            }
        }
    }
}

proof fn lemma_friend_insert_pos_bounds(s: Seq<FriendScore>, v: i16)
    ensures
        0 <= friend_insert_pos(s, v) <= s.len(),
        forall|k: int| 0 <= k < friend_insert_pos(s, v) ==> v < #[trigger] s[k].score,
        friend_insert_pos(s, v) < s.len() ==> !(v < s[friend_insert_pos(s, v)].score),
    decreases s.len(),
{
    if s.len() > 0 && v < s[0].score {
        lemma_friend_insert_pos_bounds(s.drop_first(), v);
        assert forall|k: int| 0 <= k < friend_insert_pos(s, v) implies v < #[trigger] s[k].score by {
            if k > 0 {
                assert(s[k] == s.drop_first()[k - 1]);
            }
        }
    }
}

proof fn lemma_friend_index_from_bounds(s: Seq<FriendScore>, id: u16, from: int)
    requires
        0 <= from <= s.len(),
    ensures
        from <= friend_index_from(s, id, from) <= s.len(),
        friend_index_from(s, id, from) < s.len() ==> s[friend_index_from(s, id, from)].index == id,
    decreases s.len() - from,
{
    if from < s.len() && s[from].index != id {
        lemma_friend_index_from_bounds(s, id, from + 1);
    }
}

/// Insert a new personal score into the personal scoreboard.
pub fn insert_my_score(scores: &mut [i16; 8], new_score: i16)
    ensures
        final(scores)@ == spec_insert_my_score(old(scores)@, new_score),
{
    let ghost s = scores@;
    let mut idx: usize = 0;
    while idx < 8 && !(new_score > scores[idx])
        invariant
            0 <= idx <= 8,
            scores@ == s,
            s.len() == 8,
            forall|k: int| 0 <= k < idx ==> !(new_score > #[trigger] s[k]),
        decreases 8 - idx,
    {
        idx = idx + 1;
    }
    proof {
        lemma_my_insert_pos(s, new_score, idx as int);
    }
    if idx == 8 {
        return;
    }
    let mut j: usize = 7;
    while j > idx
        invariant
            idx < 8,
            idx <= j <= 7,
            s.len() == 8,
            scores@.len() == 8,
            forall|k: int| 0 <= k <= j ==> #[trigger] scores@[k] == s[k],
            forall|k: int| j < k < 8 ==> #[trigger] scores@[k] == s[k - 1],
        decreases j,
    {
        scores[j] = scores[j - 1];
        j = j - 1;
    }
    scores[idx] = new_score;
    assert(scores@ =~= s.take(idx as int).push(new_score) + s.subrange(idx as int, 7));
}

/// Insert a friend's score into the friends' scoreboard.
///
/// It tries to keep the board diverse: if possible, it will remove the lowest score
/// of the same person rather than of someone else.
pub fn insert_friend_score(scores: &mut [FriendScore; 8], friend_id: u16, new_score: i16)
    ensures
        final(scores)@ == spec_insert_friend_score(old(scores)@, friend_id, new_score),
{
    let ghost s = scores@;
    // Skip all scores higher than the new one.
    let mut p: usize = 0;
    while p < 8 && new_score < scores[p].score
        invariant
            0 <= p <= 8,
            scores@ == s,
            s.len() == 8,
            forall|k: int| 0 <= k < p ==> new_score < #[trigger] s[k].score,
        decreases 8 - p,
    {
        p = p + 1;
    }
    proof {
        lemma_friend_insert_pos(s, new_score, p as int);
    }
    if p == 8 {
        return;
    }
    let ghost new_entry = FriendScore { index: friend_id, score: new_score };
    // In the upcoming shift of scores, insert first the new score.
    let mut prev = FriendScore { index: friend_id, score: new_score };
    let mut k: usize = p;
    while k < 8
        invariant_except_break
            p < 8,
            p <= k <= 8,
            s.len() == 8,
            scores@.len() == 8,
            forall|i: int| 0 <= i < p ==> #[trigger] scores@[i] == s[i],
            k > p ==> scores@[p as int] == new_entry,
            forall|i: int| p < i < k ==> #[trigger] scores@[i] == s[i - 1],
            forall|i: int| k <= i < 8 ==> #[trigger] scores@[i] == s[i],
            prev == (if k == p { new_entry } else { s[k - 1] }),
            forall|i: int| p <= i < k ==> #[trigger] s[i].index != friend_id,
        ensures
            p < 8,
            s.len() == 8,
            scores@.len() == 8,
            forall|i: int| 0 <= i < p ==> #[trigger] scores@[i] == s[i],
            scores@[p as int] == new_entry,
            k < 8 ==> s[k as int].index == friend_id,
            forall|i: int| p < i <= k && i < 8 ==> #[trigger] scores@[i] == s[i - 1],
            forall|i: int| k < i < 8 ==> #[trigger] scores@[i] == s[i],
            forall|i: int| p <= i < k && i < 8 ==> #[trigger] s[i].index != friend_id,
            p <= k <= 8,
        decreases 8 - k,
    {
        let same_person = scores[k].index == friend_id;
        // Shift all scores to the right.
        let tmp = scores[k];
        scores[k] = prev;
        prev = tmp;
        // Stop shifting when hitting the same person.
        if same_person {
            break;
        }
        k = k + 1;
    }
    proof {
        lemma_friend_index_from(s, friend_id, p as int, k as int);
        let dropped = if k < 8 { k as int } else { 7 };
        assert(scores@ =~= s.take(p as int).push(new_entry) + s.subrange(p as int, dropped)
            + s.subrange(dropped + 1, 8));
    }
}

} // verus!

verus! {

/// Laws of the scoreboards.

/// A personal board sorted from the highest score stays sorted after a new score,
/// keeps its size, and starts with the best of the old best score and the new one.
pub proof fn law_my_board_stays_sorted(s: Seq<i16>, v: i16)
    requires
        sorted_desc(s),
        s.len() > 0,
    ensures
        sorted_desc(spec_insert_my_score(s, v)),
        spec_insert_my_score(s, v).len() == s.len(),
        spec_insert_my_score(s, v)[0] == (if v > s[0] { v } else { s[0] }),
{
    lemma_my_insert_pos_bounds(s, v);
    let p = my_insert_pos(s, v);
    let r = spec_insert_my_score(s, v);
    if p < s.len() {
        assert forall|i: int| 0 <= i < r.len() implies #[trigger] r[i] == (if i < p { s[i] } else if i
            == p { v } else { s[i - 1] }) by {}
        assert forall|i: int, j: int| 0 <= i < j < r.len() implies r[i] >= r[j] by {
            assert(r[i] == (if i < p { s[i] } else if i == p { v } else { s[i - 1] }));
            assert(r[j] == (if j < p { s[j] } else if j == p { v } else { s[j - 1] }));
            if i == p {
                assert(v > s[p]);
                if j > p + 1 {
                    assert(s[p] >= s[j - 1]);
                }
            }
            if j == p && i < p {
                assert(!(v > s[i]));
            }
        }
    }
}

/// A friends' board sorted from the highest score stays sorted after a friend's
/// new score and keeps its size.
pub proof fn law_friend_board_stays_sorted(s: Seq<FriendScore>, id: u16, v: i16)
    requires
        friends_sorted_desc(s),
        s.len() > 0,
    ensures
        friends_sorted_desc(spec_insert_friend_score(s, id, v)),
        spec_insert_friend_score(s, id, v).len() == s.len(),
{
    lemma_friend_insert_pos_bounds(s, v);
    let p = friend_insert_pos(s, v);
    if p < s.len() {
        lemma_friend_index_from_bounds(s, id, p);
        let q = friend_index_from(s, id, p);
        let d = if q < s.len() { q } else { s.len() - 1 };
        let r = spec_insert_friend_score(s, id, v);
        let e = FriendScore { index: id, score: v };
        assert forall|i: int| 0 <= i < r.len() implies #[trigger] r[i] == (if i < p { s[i] } else if i
            == p { e } else if i <= d { s[i - 1] } else { s[i] }) by {}
        assert forall|i: int, j: int| 0 <= i < j < r.len() implies r[i].score >= r[j].score by {
            assert(r[i] == (if i < p { s[i] } else if i == p { e } else if i <= d { s[i - 1] } else { s[i] }));
            assert(r[j] == (if j < p { s[j] } else if j == p { e } else if j <= d { s[j - 1] } else { s[j] }));
            if i == p {
                assert(!(v < s[p].score));
                if j <= d && j > p + 1 {
                    assert(s[p].score >= s[j - 1].score);
                } else if j > d {
                    assert(s[p].score >= s[j].score);
                }
            }
            if j == p && i < p {
                assert(v < s[i].score);
            }
        }
    }
}

/// When a friend already has a lower score on the board, a new score of the same
/// friend never pushes out the scores of other friends.
pub proof fn law_friend_board_keeps_others(s: Seq<FriendScore>, id: u16, v: i16, i: int)
    requires
        0 <= i < s.len(),
        s[i].index != id,
        friend_index_from(s, id, friend_insert_pos(s, v)) < s.len(),
    ensures
        spec_insert_friend_score(s, id, v).contains(s[i]),
{
    lemma_friend_insert_pos_bounds(s, v);
    let p = friend_insert_pos(s, v);
    lemma_friend_index_from_bounds(s, id, p);
    let q = friend_index_from(s, id, p);
    let r = spec_insert_friend_score(s, id, v);
    if p < s.len() {
        if i < p {
            assert(r[i] == s[i]);
        } else if i < q {
            assert(r[i + 1] == s[i]);
        } else {
            assert(i != q);
            assert(r[i] == s[i]);
        }
    }
}

/// Saturating addition of two 16-bit signed integers.
pub open spec fn sat_add_i16(a: i16, b: i16) -> i16 {
    let s = a + b;
    if s > i16::MAX {
        i16::MAX
    } else if s < i16::MIN {
        i16::MIN
    } else {
        s as i16
    }
}

/// The badge progress after adding the given (non-zero) value.
///
/// A completed badge doesn't change. Otherwise, the value is added to the progress,
/// the result is clamped between zero and the goal, and the badge is marked as new
/// when the goal is reached.
pub open spec fn spec_add_progress(p: BadgeProgress, val: i16) -> BadgeProgress {
    if p.done < p.goal {
        let n = sat_add_i16(p.done as i16, val);
        let n: u16 = if n < 0 { 0 } else { n as u16 };
        let done = if n < p.goal { n } else { p.goal };
        BadgeProgress { new: p.new || done >= p.goal, done, goal: p.goal }
    } else {
        p
    }
}

/// Adding a value to an unfinished badge moves its progress by exactly that value,
/// up or down, as long as the sum stays between zero and the goal; the badge is
/// then marked as new when the sum reaches the goal, and its goal stays.
/// The sum is taken in 16-bit signed numbers, so it is stated where the progress
/// and the sum are at most `i16::MAX`.
pub proof fn law_progress_adds_value(p: BadgeProgress, val: i16)
    requires
        p.done < p.goal,
        p.done <= 32767,
        0 <= p.done + val <= p.goal,
        p.done + val <= 32767,
    ensures
        spec_add_progress(p, val).done == p.done + val,
        spec_add_progress(p, val).goal == p.goal,
        spec_add_progress(p, val).new == (p.new || p.done + val == p.goal),
{
    law_progress_clamped(p, val);
}

/// For an unfinished badge, the new progress is the old one plus the value, held
/// within zero and the goal, and, as a 16-bit signed sum, at most 32767. A negative
/// value never raises the progress and a positive one never lowers it.
/// A badge whose goal is reached doesn't change at all.
pub proof fn law_progress_clamped(p: BadgeProgress, val: i16)
    requires
        p.done <= 32767,
    ensures
        p.done < p.goal ==> ({
            let sum = p.done + val;
            let capped = if sum > 32767 { 32767 } else { sum };
            let low = if capped < 0 { 0 } else { capped };
            &&& spec_add_progress(p, val).done == if low > p.goal { p.goal as int } else { low }
            &&& spec_add_progress(p, val).goal == p.goal
            &&& spec_add_progress(p, val).new == (p.new || spec_add_progress(p, val).done == p.goal)
            &&& val < 0 ==> spec_add_progress(p, val).done <= p.done
            &&& val > 0 ==> spec_add_progress(p, val).done >= p.done
        }),
        p.done >= p.goal ==> spec_add_progress(p, val) == p,
{
    let d: u16 = p.done;
    assert((d as i16) as int == d as int) by (bit_vector)
        requires
            d <= 32767,
    ;
}

/// The packed value returned to the app: progress in the high half, goal in the low half.
pub open spec fn pack_progress(done: u16, goal: u16) -> u32 {
    (done * 65536 + goal) as u32
}

/// The error reported when a badge with the given ID is not found.
pub open spec fn no_badge_error(n_badges: int, badge_id: u32) -> HostError {
    if n_badges == 0 { HostError::NoBadges } else { HostError::NoBadge(badge_id) }
}

/// The error reported when a board with the given ID is not found.
pub open spec fn no_board_error(n_boards: int, board_id: u32) -> HostError {
    if n_boards == 0 { HostError::NoBoards } else { HostError::NoBoard(board_id) }
}

/// True if the value fits into a 16-bit signed integer.
pub open spec fn fits_i16(v: i32) -> bool {
    i16::MIN <= v <= i16::MAX
}

fn pack(done: u16, goal: u16) -> (res: u32)
    ensures
        res == pack_progress(done, goal),
{
    let d = done as u32;
    let g = goal as u32;
    assert((d << 16u32) | g == d * 65536 + g) by (bit_vector)
        requires
            d < 65536,
            g < 65536,
    ;
    (d << 16u32) | g
}

fn saturating_add_i16(a: i16, b: i16) -> (res: i16)
    ensures
        res == sat_add_i16(a, b),
{
    let s = a as i32 + b as i32;
    if s > i16::MAX as i32 {
        i16::MAX
    } else if s < i16::MIN as i32 {
        i16::MIN
    } else {
        s as i16
    }
}

fn apply_progress(p: BadgeProgress, val: i16) -> (res: BadgeProgress)
    ensures
        res == spec_add_progress(p, val),
{
    if p.done < p.goal {
        let n = saturating_add_i16(p.done as i16, val);
        let n: u16 = if n < 0 { 0 } else { n as u16 };
        let done = if n < p.goal { n } else { p.goal };
        BadgeProgress { new: p.new || done >= p.goal, done, goal: p.goal }
    } else {
        p
    }
}

/// Add progress for a badge of the current device.
///
/// Returns the packed progress and goal of the badge.
pub fn add_progress_me(stats: &mut Option<AppStats>, dirty: &mut bool, badge_id: u32, val: i32) -> (res: Result<u32, HostError>)
    requires
        badge_id >= 1,
    ensures
        ({
            let idx = badge_id - 1;
            match *old(stats) {
                None => res == Err::<u32, HostError>(HostError::NoStats) && *final(stats) == *old(stats) && *final(dirty) == *old(dirty),
                Some(st) => {
                    let n = st.badges@.len();
                    if idx >= n {
                        &&& res == Err::<u32, HostError>(no_badge_error(n as int, badge_id))
                        &&& *final(stats) == *old(stats)
                        &&& *final(dirty) == *old(dirty)
                    } else if val != 0 && !fits_i16(val) {
                        &&& res == Err::<u32, HostError>(HostError::ValueTooBig)
                        &&& *final(stats) == *old(stats)
                        &&& *final(dirty) == *old(dirty)
                    } else {
                        let p = st.badges@[idx];
                        let changed = val != 0 && p.done < p.goal;
                        let p2 = if val != 0 { spec_add_progress(p, val as i16) } else { p };
                        &&& res == Ok::<u32, HostError>(pack_progress(p2.done, p2.goal))
                        &&& *final(stats) is Some
                        &&& (*final(stats))->0.badges@ == st.badges@.update(idx, p2)
                        &&& (*final(stats))->0.scores@ == st.scores@
                        &&& *final(dirty) == (*old(dirty) || changed)
                    }
                },
            }
        }),
{
    let mut st = match stats.take() {
        Some(st) => st,
        None => return Err(HostError::NoStats),
    };
    let idx = (badge_id - 1) as usize;
    if idx >= st.badges.len() {
        let err = if st.badges.len() == 0 { HostError::NoBadges } else { HostError::NoBadge(badge_id) };
        *stats = Some(st);
        return Err(err);
    }
    let mut progress = st.badges[idx];
    if val != 0 {
        if val < i16::MIN as i32 || val > i16::MAX as i32 {
            *stats = Some(st);
            return Err(HostError::ValueTooBig);
        }
        if progress.done < progress.goal {
            *dirty = true;
        }
        progress = apply_progress(progress, val as i16);
    }
    st.badges.set(idx, progress);
    let res = pack(progress.done, progress.goal);
    *stats = Some(st);
    Ok(res)
}

} // verus!

verus! {

/// Add progress for a badge of a friend (another device in multiplayer).
///
/// The friend's progress is kept in `peer_badges`, the goal comes from the app stats.
/// Returns the packed progress of the friend and the goal of the badge.
pub fn add_progress_friend(
    stats: &mut Option<AppStats>,
    dirty: &mut bool,
    peer_badges: &mut Vec<u16>,
    badge_id: u32,
    val: i32,
) -> (res: Result<u32, HostError>)
    requires
        badge_id >= 1,
    ensures
        ({
            let idx = badge_id - 1;
            match *old(stats) {
                None => res == Err::<u32, HostError>(HostError::NoStats) && *final(stats) == *old(stats)
                    && *final(dirty) == *old(dirty) && final(peer_badges)@ == old(peer_badges)@,
                Some(st) => {
                    let n = st.badges@.len();
                    if idx >= n || idx >= old(peer_badges)@.len() {
                        &&& res == Err::<u32, HostError>(no_badge_error(n as int, badge_id))
                        &&& *final(stats) == *old(stats)
                        &&& *final(dirty) == *old(dirty)
                        &&& final(peer_badges)@ == old(peer_badges)@
                    } else if val != 0 && !fits_i16(val) {
                        &&& res == Err::<u32, HostError>(HostError::ValueTooBig)
                        &&& *final(stats) == *old(stats)
                        &&& *final(dirty) == *old(dirty)
                        &&& final(peer_badges)@ == old(peer_badges)@
                    } else {
                        let p = st.badges@[idx];
                        let done = old(peer_badges)@[idx];
                        let changed = val != 0 && done < p.goal;
                        let p2 = if val != 0 {
                            spec_add_progress(BadgeProgress { new: p.new, done, goal: p.goal }, val as i16)
                        } else {
                            BadgeProgress { new: p.new, done, goal: p.goal }
                        };
                        &&& res == Ok::<u32, HostError>(pack_progress(p2.done, p.goal))
                        &&& *final(stats) is Some
                        &&& (*final(stats))->0.badges@ == st.badges@.update(
                            idx,
                            BadgeProgress { new: p2.new, done: p.done, goal: p.goal },
                        )
                        &&& (*final(stats))->0.scores@ == st.scores@
                        &&& final(peer_badges)@ == old(peer_badges)@.update(idx, p2.done)
                        &&& *final(dirty) == (*old(dirty) || changed)
                    }
                },
            }
        }),
{
    let mut st = match stats.take() {
        Some(st) => st,
        None => return Err(HostError::NoStats),
    };
    let idx = (badge_id - 1) as usize;
    if idx >= st.badges.len() || idx >= peer_badges.len() {
        let err = if st.badges.len() == 0 { HostError::NoBadges } else { HostError::NoBadge(badge_id) };
        *stats = Some(st);
        return Err(err);
    }
    let mut progress = st.badges[idx];
    let mut done = peer_badges[idx];
    if val != 0 {
        if val < i16::MIN as i32 || val > i16::MAX as i32 {
            *stats = Some(st);
            return Err(HostError::ValueTooBig);
        }
        if done < progress.goal {
            *dirty = true;
        }
        let friend = apply_progress(BadgeProgress { new: progress.new, done, goal: progress.goal }, val as i16);
        done = friend.done;
        progress.new = friend.new;
    }
    st.badges.set(idx, progress);
    peer_badges.set(idx, done);
    let res = pack(done, progress.goal);
    *stats = Some(st);
    Ok(res)
}

/// Submit a new personal score for a board.
///
/// Returns the personal best score on the board.
pub fn add_my_score(stats: &mut Option<AppStats>, board_id: u32, new_score: i32) -> (res: Result<i32, HostError>)
    requires
        board_id >= 1,
    ensures
        ({
            let idx = board_id - 1;
            match *old(stats) {
                None => res == Err::<i32, HostError>(HostError::NoStats) && *final(stats) == *old(stats),
                Some(st) => {
                    let n = st.scores@.len();
                    if idx >= n {
                        res == Err::<i32, HostError>(no_board_error(n as int, board_id)) && *final(stats) == *old(stats)
                    } else if !fits_i16(new_score) {
                        res == Err::<i32, HostError>(HostError::ValueTooBig) && *final(stats) == *old(stats)
                    } else {
                        let b = st.scores@[idx];
                        let me = spec_insert_my_score(b.me@, new_score as i16);
                        &&& *final(stats) is Some
                        &&& (*final(stats))->0.badges@ == st.badges@
                        &&& (*final(stats))->0.scores@.len() == n
                        &&& forall|i: int| 0 <= i < n && i != idx ==> (*final(stats))->0.scores@[i] == #[trigger] st.scores@[i]
                        &&& (*final(stats))->0.scores@[idx as int].me@ == me
                        &&& (*final(stats))->0.scores@[idx as int].friends == b.friends
                        &&& res == Ok::<i32, HostError>(me[0] as i32)
                    }
                },
            }
        }),
{
    let mut st = match stats.take() {
        Some(st) => st,
        None => return Err(HostError::NoStats),
    };
    let idx = (board_id - 1) as usize;
    if idx >= st.scores.len() {
        let err = if st.scores.len() == 0 { HostError::NoBoards } else { HostError::NoBoard(board_id) };
        *stats = Some(st);
        return Err(err);
    }
    if new_score < i16::MIN as i32 || new_score > i16::MAX as i32 {
        *stats = Some(st);
        return Err(HostError::ValueTooBig);
    }
    let mut board = st.scores[idx];
    insert_my_score(&mut board.me, new_score as i16);
    let best = board.me[0];
    st.scores.set(idx, board);
    *stats = Some(st);
    Ok(best as i32)
}

/// Submit a new score of a friend (another device in multiplayer) for a board.
///
/// The friend's score is inserted into the friends' board; the friend's own
/// top score (kept in `peer_scores`) is raised if the new score is higher.
/// Returns the friend's top score on the board.
pub fn add_friend_score(
    stats: &mut Option<AppStats>,
    friend_id: u16,
    peer_scores: &mut Vec<i16>,
    board_id: u32,
    new_score: i32,
) -> (res: Result<i32, HostError>)
    requires
        board_id >= 1,
    ensures
        ({
            let idx = board_id - 1;
            match *old(stats) {
                None => res == Err::<i32, HostError>(HostError::NoStats) && *final(stats) == *old(stats)
                    && final(peer_scores)@ == old(peer_scores)@,
                Some(st) => {
                    let n = st.scores@.len();
                    if idx >= n {
                        &&& res == Err::<i32, HostError>(no_board_error(n as int, board_id))
                        &&& *final(stats) == *old(stats)
                        &&& final(peer_scores)@ == old(peer_scores)@
                    } else if !fits_i16(new_score) {
                        &&& res == Err::<i32, HostError>(HostError::ValueTooBig)
                        &&& *final(stats) == *old(stats)
                        &&& final(peer_scores)@ == old(peer_scores)@
                    } else {
                        let b = st.scores@[idx];
                        let v = new_score as i16;
                        let friends = spec_insert_friend_score(b.friends@, friend_id, v);
                        &&& *final(stats) is Some
                        &&& (*final(stats))->0.badges@ == st.badges@
                        &&& (*final(stats))->0.scores@.len() == n
                        &&& forall|i: int| 0 <= i < n && i != idx ==> (*final(stats))->0.scores@[i] == #[trigger] st.scores@[i]
                        &&& (*final(stats))->0.scores@[idx as int].friends@ == friends
                        &&& (*final(stats))->0.scores@[idx as int].me == b.me
                        &&& if idx >= old(peer_scores)@.len() {
                            &&& res == Err::<i32, HostError>(no_board_error(old(peer_scores)@.len() as int, board_id))
                            &&& final(peer_scores)@ == old(peer_scores)@
                        } else {
                            let top = old(peer_scores)@[idx];
                            let top2 = if v > top { v } else { top };
                            &&& final(peer_scores)@ == old(peer_scores)@.update(idx, top2)
                            &&& res == Ok::<i32, HostError>(top2 as i32)
                        }
                    }
                },
            }
        }),
{
    let mut st = match stats.take() {
        Some(st) => st,
        None => return Err(HostError::NoStats),
    };
    let idx = (board_id - 1) as usize;
    if idx >= st.scores.len() {
        let err = if st.scores.len() == 0 { HostError::NoBoards } else { HostError::NoBoard(board_id) };
        *stats = Some(st);
        return Err(err);
    }
    if new_score < i16::MIN as i32 || new_score > i16::MAX as i32 {
        *stats = Some(st);
        return Err(HostError::ValueTooBig);
    }
    let v = new_score as i16;
    let mut board = st.scores[idx];
    insert_friend_score(&mut board.friends, friend_id, v);
    st.scores.set(idx, board);
    *stats = Some(st);
    if idx >= peer_scores.len() {
        let err = if peer_scores.len() == 0 { HostError::NoBoards } else { HostError::NoBoard(board_id) };
        return Err(err);
    }
    let mut top = peer_scores[idx];
    if v > top {
        top = v;
    }
    peer_scores.set(idx, top);
    Ok(top as i32)
}

} // verus!
