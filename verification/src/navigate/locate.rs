//! The choices of the minimap locator that keeps one matcher per map floor:
//! in which order the floors are tried, which match wins, and which floor a
//! known position belongs to.

use vstd::prelude::*;

use crate::text::{ascii_lower, chars_of, to_ascii_lower};

verus! {

broadcast use vstd::string::group_string_axioms;

/// The floors in the order they are tried: the one matched last first, then
/// the others in their order.
pub open spec fn search_order_spec(n: nat, last_hit: Option<usize>) -> Seq<usize> {
    match last_hit {
        None => Seq::new(n, |j: int| j as usize),
        Some(h) => seq![h].add(Seq::new(n, |j: int| j as usize).filter(|j: usize| j != h)),
    }
}

/// The order in which `n` floors are tried (see [`search_order_spec`]).
pub fn search_order(n: usize, last_hit: Option<usize>) -> (v: Vec<usize>)
    requires
        last_hit matches Some(h) ==> h < n,
    ensures
        v@ == search_order_spec(n as nat, last_hit),
{
    let mut v: Vec<usize> = Vec::new();
    let ghost all = Seq::new(n as nat, |j: int| j as usize);
    match last_hit {
        None => {
            let mut i: usize = 0;
            while i < n
                invariant
                    0 <= i <= n,
                    all == Seq::new(n as nat, |j: int| j as usize),
                    v@ == all.take(i as int),
                decreases n - i,
            {
                v.push(i);
                assert(all.take(i + 1) =~= all.take(i as int).push(i));
                i = i + 1;
            }
            assert(all.take(n as int) =~= all);
        },
        Some(h) => {
            v.push(h);
            let mut i: usize = 0;
            while i < n
                invariant
                    0 <= i <= n,
                    all == Seq::new(n as nat, |j: int| j as usize),
                    v@ == seq![h].add(all.take(i as int).filter(|j: usize| j != h)),
                decreases n - i,
            {
                proof {
                    assert(all.take(i + 1) =~= all.take(i as int).push(i));
                    all.take(i as int).lemma_filter_push(i, |j: usize| j != h);
                }
                if i != h {
                    v.push(i);
                    assert(v@ =~= seq![h].add(all.take(i + 1).filter(|j: usize| j != h)));
                } else {
                    assert(v@ =~= seq![h].add(all.take(i + 1).filter(|j: usize| j != h)));
                }
                i = i + 1;
            }
            assert(all.take(n as int) =~= all);
        },
    }
    v
}

/// The best match so far: its floor and its number of good matches.
#[derive(Debug, Clone, Copy, PartialEq, Eq, Structural)]
pub struct FloorMatch {
    pub floor: usize,
    pub good: usize,
}

/// What trying one floor leads to.
#[derive(Debug, Clone, Copy, PartialEq, Eq, Structural)]
pub enum LocateStep {
    /// Take this floor's match at once.
    Accept(usize),
    /// Go on trying, remembering this best match so far (floor, good matches).
    Continue(Option<FloorMatch>),
}

/// What the match of floor `i` (with `good` good matches, found near the
/// last position where `local`) leads to, with `best` the best match so far:
/// a match near the last position on the floor matched last is taken at
/// once; otherwise a match replaces the best one only with strictly more
/// good matches.
pub open spec fn locate_step_spec(
    best: Option<FloorMatch>,
    i: usize,
    good: usize,
    local: bool,
    last_hit: Option<usize>,
) -> LocateStep {
    if last_hit == Some(i) && local {
        LocateStep::Accept(i)
    } else {
        match best {
            None => LocateStep::Continue(Some(FloorMatch { floor: i, good })),
            Some(b) => if good > b.good {
                LocateStep::Continue(Some(FloorMatch { floor: i, good }))
            } else {
                LocateStep::Continue(best)
            },
        }
    }
}

/// What the match of floor `i` leads to (see [`locate_step_spec`]).
pub fn locate_step(
    best: Option<FloorMatch>,
    i: usize,
    good: usize,
    local: bool,
    last_hit: Option<usize>,
) -> (s: LocateStep)
    ensures
        s == locate_step_spec(best, i, good, local, last_hit),
{
    let hot = match last_hit {
        Some(h) => h == i,
        None => false,
    };
    if hot && local {
        return LocateStep::Accept(i);
    }
    match best {
        None => LocateStep::Continue(Some(FloorMatch { floor: i, good })),
        Some(b) => {
            if good > b.good {
                LocateStep::Continue(Some(FloorMatch { floor: i, good }))
            } else {
                LocateStep::Continue(best)
            }
        },
    }
}

/// One floor tried, in search order: its number of good matches where it
/// matched, and whether the match was searched near the last position.
#[derive(Debug, Clone, Copy, PartialEq, Eq, Structural)]
pub struct FloorTry {
    pub floor: usize,
    pub good: Option<usize>,
    pub local: bool,
}

/// The step after the floors `tries`, tried in order from no best match;
/// once a floor is accepted, later floors are not tried.
pub open spec fn locate_fold(tries: Seq<FloorTry>, last_hit: Option<usize>) -> LocateStep
    decreases tries.len(),
{
    if tries.len() == 0 {
        LocateStep::Continue(None)
    } else {
        match locate_fold(tries.drop_last(), last_hit) {
            LocateStep::Accept(i) => LocateStep::Accept(i),
            LocateStep::Continue(best) => match tries.last().good {
                None => LocateStep::Continue(best),
                Some(g) => locate_step_spec(best, tries.last().floor, g, tries.last().local, last_hit),
            },
        }
    }
}

/// The step after trying the floors `tries` in order (see [`locate_fold`]):
/// stops at the first floor that is accepted.
pub fn locate_over_floors(tries: &Vec<FloorTry>, last_hit: Option<usize>) -> (r: LocateStep)
    ensures
        r == locate_fold(tries@, last_hit),
{
    let mut cur = LocateStep::Continue(None);
    let mut i: usize = 0;
    while i < tries.len()
        invariant
            0 <= i <= tries@.len(),
            cur == locate_fold(tries@.take(i as int), last_hit),
        decreases tries@.len() - i,
    {
        assert(tries@.take(i + 1).drop_last() =~= tries@.take(i as int));
        match cur {
            LocateStep::Accept(_) => {
                proof {
                    lemma_fold_accept_stays(tries@, i as int, last_hit);
                }
                assert(tries@.take(tries@.len() as int) =~= tries@);
                return cur;
            },
            LocateStep::Continue(best) => {
                let t = tries[i];
                cur = match t.good {
                    None => LocateStep::Continue(best),
                    Some(g) => locate_step(best, t.floor, g, t.local, last_hit),
                };
            },
        }
        i = i + 1;
    }
    assert(tries@.take(i as int) =~= tries@);
    cur
}

/// Once the fold over a prefix accepts a floor, the fold over the whole
/// sequence accepts the same floor.
proof fn lemma_fold_accept_stays(tries: Seq<FloorTry>, i: int, last_hit: Option<usize>)
    requires
        0 <= i <= tries.len(),
        locate_fold(tries.take(i), last_hit) is Accept,
    ensures
        locate_fold(tries, last_hit) == locate_fold(tries.take(i), last_hit),
    decreases tries.len() - i,
{
    if i < tries.len() {
        assert(tries.take(i + 1).drop_last() =~= tries.take(i));
        lemma_fold_accept_stays(tries, i + 1, last_hit);
    } else {
        assert(tries.take(i) =~= tries);
    }
}

/// The floor the locator settles on: a floor is accepted at once only where
/// it is the floor matched last and matched near the last position;
/// otherwise the best match has the most good matches of all floors that
/// matched, and no floor tried before it had as many; where no floor
/// matched there is none.
pub proof fn lemma_locate_fold_picks_most_good(tries: Seq<FloorTry>, last_hit: Option<usize>)
    ensures
        match locate_fold(tries, last_hit) {
            LocateStep::Accept(i) => last_hit == Some(i) && exists|k: int|
                0 <= k < tries.len() && #[trigger] tries[k].floor == i && tries[k].good is Some && tries[k].local,
            LocateStep::Continue(None) => forall|k: int| 0 <= k < tries.len() ==> (#[trigger] tries[k]).good is None,
            LocateStep::Continue(Some(b)) => {
                &&& forall|k: int|
                    0 <= k < tries.len() && (#[trigger] tries[k]).good is Some ==> tries[k].good->0 <= b.good
                &&& exists|k: int|
                    0 <= k < tries.len() && (#[trigger] tries[k]).floor == b.floor && tries[k].good == Some(b.good)
                        && forall|j: int| 0 <= j < k && (#[trigger] tries[j]).good is Some ==> tries[j].good->0 < b.good
            },
        },
    decreases tries.len(),
{
    if tries.len() > 0 {
        let front = tries.drop_last();
        lemma_locate_fold_picks_most_good(front, last_hit);
        let n = tries.len() - 1;
        assert forall|k: int| 0 <= k < n implies #[trigger] tries[k] == front[k] by {}
        match locate_fold(front, last_hit) {
            LocateStep::Accept(i) => {
                let k = choose|k: int| 0 <= k < front.len() && #[trigger] front[k].floor == i && front[k].good is Some && front[k].local;
                assert(tries[k] == front[k]);
            },
            LocateStep::Continue(None) => {
                match tries.last().good {
                    None => {},
                    Some(g) => {
                        if !(last_hit == Some(tries.last().floor) && tries.last().local) {
                            assert(tries[n].floor == tries.last().floor);
                        } else {
                            assert(tries[n].floor == tries.last().floor);
                        }
                    },
                }
            },
            LocateStep::Continue(Some(b)) => {
                let k0 = choose|k: int|
                    0 <= k < front.len() && (#[trigger] front[k]).floor == b.floor && front[k].good == Some(b.good)
                        && forall|j: int| 0 <= j < k && (#[trigger] front[j]).good is Some ==> front[j].good->0 < b.good;
                assert(tries[k0] == front[k0]);
                assert(tries[n] == tries.last());
                match tries.last().good {
                    None => {
                        assert forall|j: int| 0 <= j < k0 && (#[trigger] tries[j]).good is Some implies tries[j].good->0 < b.good by {
                            assert(tries[j] == front[j]);
                        }
                    },
                    Some(g) => {
                        if last_hit == Some(tries.last().floor) && tries.last().local {
                        } else if g > b.good {
                            assert forall|j: int| 0 <= j < n && (#[trigger] tries[j]).good is Some implies tries[j].good->0 < g by {
                                assert(tries[j] == front[j]);
                            }
                        } else {
                            assert forall|j: int| 0 <= j < k0 && (#[trigger] tries[j]).good is Some implies tries[j].good->0 < b.good by {
                                assert(tries[j] == front[j]);
                            }
                        }
                    },
                }
            },
        }
    }
}

/// The fewest key points a minimap must show to be matched at all.
pub const SIFT_MIN_GOOD: usize = 7;

/// The good matches a match near the last position needs in the stricter
/// search that keeps a stable position.
pub const STABLE_LOCAL_MIN_GOOD: usize = 15;

/// What the counts of one floor's match decide.
#[derive(Debug, Clone, Copy, PartialEq, Eq, Structural)]
pub enum MatchVerdict {
    /// The minimap shows too few key points: no position.
    TooFewKeyPoints,
    /// Too few good matches: no position, and where the search was near the
    /// last position, that position is forgotten.
    TooFewGood { forget_position: bool },
    /// Enough good matches: go on to place the minimap on the map.
    Enough,
}

/// What a floor's match decides, from the minimap's `query_kps` key points
/// and `good` good matches found (near the last position where `local`),
/// with `min_good` good matches needed.
pub fn judge_match(query_kps: usize, good: usize, min_good: usize, local: bool) -> (v: MatchVerdict)
    ensures
        v == if query_kps < SIFT_MIN_GOOD {
            MatchVerdict::TooFewKeyPoints
        } else if good < min_good {
            MatchVerdict::TooFewGood { forget_position: local }
        } else {
            MatchVerdict::Enough
        },
{
    if query_kps < SIFT_MIN_GOOD {
        MatchVerdict::TooFewKeyPoints
    } else if good < min_good {
        MatchVerdict::TooFewGood { forget_position: local }
    } else {
        MatchVerdict::Enough
    }
}

/// Whether `a` and `b` are equal when ASCII letters are compared without case.
pub open spec fn eq_ignore_ascii_case_spec(a: Seq<char>, b: Seq<char>) -> bool {
    a.len() == b.len() && forall|i: int| 0 <= i < a.len() ==> ascii_lower(#[trigger] a[i]) == ascii_lower(b[i])
}

/// Whether `a` and `b` are equal when ASCII letters are compared without case.
pub fn eq_ignore_ascii_case(a: &str, b: &str) -> (r: bool)
    ensures
        r == eq_ignore_ascii_case_spec(a@, b@),
{
    let va = chars_of(a);
    let vb = chars_of(b);
    if va.len() != vb.len() {
        return false;
    }
    let mut i: usize = 0;
    while i < va.len()
        invariant
            0 <= i <= va.len(),
            va.len() == vb.len(),
            va@ == a@,
            vb@ == b@,
            forall|j: int| 0 <= j < i ==> ascii_lower(#[trigger] va@[j]) == ascii_lower(vb@[j]),
        decreases va.len() - i,
    {
        if to_ascii_lower(va[i]) != to_ascii_lower(vb[i]) {
            return false;
        }
        i = i + 1;
    }
    true
}

/// The first floor whose map is named `scene_name`, ASCII case aside: the
/// floor a position known on that map is tried first from.
pub fn first_floor_of_scene(floor_scenes: &Vec<String>, scene_name: &str) -> (r: Option<usize>)
    ensures
        match r {
            Some(k) => k < floor_scenes@.len() && eq_ignore_ascii_case_spec(floor_scenes@[k as int]@, scene_name@)
                && forall|j: int| 0 <= j < k ==> !eq_ignore_ascii_case_spec(#[trigger] floor_scenes@[j]@, scene_name@),
            None => forall|j: int|
                0 <= j < floor_scenes@.len() ==> !eq_ignore_ascii_case_spec(#[trigger] floor_scenes@[j]@, scene_name@),
        },
{
    let mut i: usize = 0;
    while i < floor_scenes.len()
        invariant
            0 <= i <= floor_scenes.len(),
            forall|j: int| 0 <= j < i ==> !eq_ignore_ascii_case_spec(#[trigger] floor_scenes@[j]@, scene_name@),
        decreases floor_scenes.len() - i,
    {
        if eq_ignore_ascii_case(floor_scenes[i].as_str(), scene_name) {
            return Some(i);
        }
        i = i + 1;
    }
    None
}

/// Every floor is tried, nothing but floors is tried, and the floor matched
/// last is tried first.
pub proof fn lemma_search_order_covers(n: nat, last_hit: Option<usize>)
    requires
        last_hit matches Some(h) ==> h < n,
        n <= usize::MAX + 1,
    ensures
        forall|j: usize| j < n ==> #[trigger] search_order_spec(n, last_hit).contains(j),
        forall|k: int| 0 <= k < search_order_spec(n, last_hit).len() ==> #[trigger] search_order_spec(n, last_hit)[k] < n,
        last_hit matches Some(h) ==> search_order_spec(n, last_hit)[0] == h,
{
    let all = Seq::new(n, |j: int| j as usize);
    match last_hit {
        None => {
            assert forall|j: usize| j < n implies #[trigger] search_order_spec(n, last_hit).contains(j) by {
                assert(all[j as int] == j);
            }
        },
        Some(h) => {
            let pred = |j: usize| j != h;
            let order = search_order_spec(n, last_hit);
            assert(order == seq![h].add(all.filter(pred)));
            assert forall|j: usize| j < n implies #[trigger] order.contains(j) by {
                if j == h {
                    assert(order[0] == h);
                } else {
                    assert(all[j as int] == j);
                    all.lemma_filter_contains(pred, j as int);
                    let k = choose|k: int| 0 <= k < all.filter(pred).len() && all.filter(pred)[k] == j;
                    assert(order[k + 1] == j);
                }
            }
            assert forall|k: int| 0 <= k < order.len() implies #[trigger] order[k] < n by {
                if k > 0 {
                    let e = order[k];
                    assert(all.filter(pred)[k - 1] == e);
                    assert(all.filter(pred).contains(e));
                    all.lemma_filter_contains_rev(pred, e);
                }
            }
        },
    }
}

} // verus!
