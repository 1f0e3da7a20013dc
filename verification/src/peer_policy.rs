//! Frame rate limiting of benchmark traffic.

use crate::clock::{Clock, MAX_READING_NS};
use crate::recency::{elapsed_since, since};
use std::collections::VecDeque;
use vstd::prelude::*;

verus! {

/// Length of the sliding window, in milliseconds.
pub const FRAME_RATE_WINDOW_MS: u64 = 1_000;

/// Length of the sliding window, in nanoseconds.
pub const FRAME_RATE_WINDOW_NS: u128 = 1_000_000_000;

/// Frames allowed within the window.
pub const FRAME_RATE_MAX: u16 = 100;

/// The limiter's state, without its clock: when the last frames were allowed,
/// oldest first.
pub ghost struct PolicyModel {
    pub recent: Seq<u128>,
}

/// Frame rate limiter.
pub struct PeerPolicy {
    recent: VecDeque<u128>,
    clock: Clock,
}

impl View for PeerPolicy {
    type V = PolicyModel;

    closed spec fn view(&self) -> PolicyModel {
        PolicyModel { recent: self.recent@ }
    }
}

impl PolicyModel {
    /// No frame allowed yet.
    pub open spec fn fresh() -> PolicyModel {
        PolicyModel { recent: Seq::empty() }
    }

    /// Whether the window that ends at a reading has room: it has unless the
    /// oldest of as many frames as it takes is still within it.
    pub open spec fn has_room(self, now_ns: u128) -> bool {
        self.recent.len() < FRAME_RATE_MAX || since(now_ns, self.recent[0])
            >= FRAME_RATE_WINDOW_NS
    }

    /// What a frame leads to: it counts while the window has room, and is
    /// refused otherwise. No more frames are remembered than the window takes.
    pub open spec fn framed(self, now_ns: u128) -> (PolicyModel, bool) {
        if !self.has_room(now_ns) {
            (self, false)
        } else if self.recent.len() < FRAME_RATE_MAX {
            (PolicyModel { recent: self.recent.push(now_ns) }, true)
        } else {
            (PolicyModel { recent: self.recent.drop_first().push(now_ns) }, true)
        }
    }
}

impl PeerPolicy {
    /// A limiter that has allowed no frame yet.
    pub fn new() -> (r: PeerPolicy)
        ensures
            r@ == PolicyModel::fresh(),
    {
        PeerPolicy { recent: VecDeque::new(), clock: Clock::start() }
    }

    /// Whether a frame at this clock reading is allowed: at most
    /// [`FRAME_RATE_MAX`] are within the sliding window.
    pub fn check_frame_rate_at(&mut self, now_ns: u128) -> (r: bool)
        ensures
            (final(self)@, r) == old(self)@.framed(now_ns),
    {
        if self.recent.len() >= FRAME_RATE_MAX as usize {
            if elapsed_since(now_ns, self.recent[0]) < FRAME_RATE_WINDOW_NS {
                return false;
            }
            self.recent.pop_front();
            assert(self.recent@ =~= old(self).recent@.drop_first());
        }
        self.recent.push_back(now_ns);
        true
    }

    /// Whether a frame now is allowed.
    pub fn check_frame_rate(&mut self) -> (r: bool)
        ensures
            exists|now_ns: u128|
                now_ns < MAX_READING_NS && (final(self)@, r) == #[trigger] old(self)@.framed(
                    now_ns,
                ),
    {
        let now_ns = self.clock.now_ns();
        self.check_frame_rate_at(now_ns)
    }
}

impl Default for PeerPolicy {
    /// A limiter that has allowed no frame yet.
    fn default() -> (r: PeerPolicy)
        ensures
            r@ == PolicyModel::fresh(),
    {
        PeerPolicy::new()
    }
}

/// The state after frames at the given clock readings, and the readings at which
/// they were allowed.
pub open spec fn after_frames(times: Seq<u128>) -> (PolicyModel, Seq<u128>)
    decreases times.len(),
{
    if times.len() == 0 {
        (PolicyModel::fresh(), Seq::empty())
    } else {
        let (before, allowed) = after_frames(times.drop_last());
        let (after, ok) = before.framed(times.last());
        (
            after,
            if ok {
                allowed.push(times.last())
            } else {
                allowed
            },
        )
    }
}

/// Whether readings never go back.
pub open spec fn never_goes_back(times: Seq<u128>) -> bool {
    forall|i: int, j: int| 0 <= i <= j < times.len() ==> times[i] <= times[j]
}

/// What is remembered are the last frames allowed, every frame that comes as many
/// later as the window takes comes a window later, and the allowed readings go
/// back as little as the readings do.
proof fn frames_are_spaced(times: Seq<u128>)
    requires
        never_goes_back(times),
    ensures
        ({
            let (m, allowed) = after_frames(times);
            let n = allowed.len() as int;
            &&& m.recent == if n <= FRAME_RATE_MAX {
                allowed
            } else {
                allowed.skip(n - FRAME_RATE_MAX)
            }
            &&& forall|i: int|
                0 <= i && i + FRAME_RATE_MAX < n ==> #[trigger] allowed[i] + FRAME_RATE_WINDOW_NS
                    <= allowed[i + FRAME_RATE_MAX]
            &&& never_goes_back(allowed)
            &&& n > 0 ==> times.len() > 0 && allowed[n - 1] <= times.last()
        }),
    decreases times.len(),
{
    if times.len() > 0 {
        let head = times.drop_last();
        assert forall|i: int, j: int| 0 <= i <= j < head.len() implies head[i] <= head[j] by {
            assert(head[i] == times[i] && head[j] == times[j]);
        }
        frames_are_spaced(head);
        let (before, earlier) = after_frames(head);
        let (m, allowed) = after_frames(times);
        let k = earlier.len() as int;
        if head.len() > 0 {
            assert(head.last() == times[times.len() - 2]);
        }
        if before.framed(times.last()).1 {
            if k < FRAME_RATE_MAX {
                assert(m.recent =~= allowed);
            } else {
                assert(before.recent[0] == earlier[k - FRAME_RATE_MAX]);
                assert(m.recent =~= allowed.skip(k + 1 - FRAME_RATE_MAX));
            }
            assert forall|i: int, j: int| 0 <= i <= j < allowed.len() implies allowed[i]
                <= allowed[j] by {
                if j < k {
                    assert(earlier[i] <= earlier[j]);
                } else if i < k {
                    assert(earlier[i] <= earlier[k - 1]);
                }
            }
            assert forall|i: int| 0 <= i && i + FRAME_RATE_MAX < allowed.len() implies
                #[trigger] allowed[i] + FRAME_RATE_WINDOW_NS <= allowed[i + FRAME_RATE_MAX] by {
                assert(allowed[i] == earlier[i]);
            }
        }
    }
}

/// However frames arrive, at most [`FRAME_RATE_MAX`] of those whose readings lie
/// within a window of each other are allowed: the `i`-th and the `j`-th allowed
/// frame are that close only if no more than so many lie from the one to the other.
pub proof fn window_allows_at_most_max(times: Seq<u128>, i: int, j: int)
    requires
        never_goes_back(times),
        0 <= i <= j < after_frames(times).1.len(),
        after_frames(times).1[j] - after_frames(times).1[i] < FRAME_RATE_WINDOW_NS,
    ensures
        j - i + 1 <= FRAME_RATE_MAX,
{
    frames_are_spaced(times);
    let allowed = after_frames(times).1;
    if j - i + 1 > FRAME_RATE_MAX {
        assert(allowed[i] + FRAME_RATE_WINDOW_NS <= allowed[i + FRAME_RATE_MAX]);
        assert(allowed[i + FRAME_RATE_MAX] <= allowed[j]);
    }
}

/// A frame is refused only if the window that ends with it holds as many allowed
/// frames as it takes.
pub proof fn room_in_window_admits(times: Seq<u128>, now_ns: u128)
    requires
        never_goes_back(times.push(now_ns)),
        !after_frames(times).0.framed(now_ns).1,
    ensures
        ({
            let allowed = after_frames(times).1;
            &&& allowed.len() >= FRAME_RATE_MAX
            &&& forall|k: int|
                allowed.len() - FRAME_RATE_MAX <= k < allowed.len() ==> now_ns
                    - #[trigger] allowed[k] < FRAME_RATE_WINDOW_NS
        }),
{
    let all = times.push(now_ns);
    assert forall|i: int, j: int| 0 <= i <= j < times.len() implies times[i] <= times[j] by {
        assert(all[i] == times[i] && all[j] == times[j]);
    }
    frames_are_spaced(times);
    let (m, allowed) = after_frames(times);
    let first = allowed.len() - FRAME_RATE_MAX;
    assert(m.recent[0] == allowed[first]);
    assert(all[times.len() - 1] <= all[times.len() as int]);
    assert forall|k: int| first <= k < allowed.len() implies now_ns - #[trigger] allowed[k]
        < FRAME_RATE_WINDOW_NS by {
        assert(allowed[first] <= allowed[k]);
    }
}

} // verus!
