//! Remapping of engine-local segment ids to globally unique ones.

use std::collections::HashMap;

use vstd::prelude::*;

use crate::asr;
use crate::asr::SegmentIds;
use crate::engine::SegmentUpdate;
use crate::engine::SegmentView;

verus! {

/// Remaps engine-local segment ids to globally unique ids.
///
/// Engine instances restart their id counters whenever they're recreated, but
/// the frontend transcript persists across sessions (and engine switches), so
/// the ids it sees must never collide. The global counter outlives the tracker:
/// whoever owns it lends it to each call.
pub struct SegmentTracker {
    /// engine-local id -> global id, for segments that are still open.
    open: HashMap<u64, u64>,
}

impl View for SegmentTracker {
    type V = Map<u64, u64>;

    /// The global id of each open engine-local one.
    closed spec fn view(&self) -> Map<u64, u64> {
        self.open@
    }
}

/// What a tracker with the given open segments and the given next global id makes of
/// an update.
#[verifier::ext_equal]
pub struct Remapped {
    pub open: Map<u64, u64>,
    pub next: u64,
    pub update: SegmentView,
}

/// An open segment keeps its global id, and a final update releases it; any other
/// update takes the next global id.
pub open spec fn remapped(open: Map<u64, u64>, next: u64, u: SegmentView) -> Remapped {
    let known = open.dom().contains(u.segment_id);
    let id = if known {
        open[u.segment_id]
    } else {
        next
    };
    Remapped {
        open: if u.is_final {
            open.remove(u.segment_id)
        } else {
            open.insert(u.segment_id, id)
        },
        next: if known {
            next
        } else {
            asr::id_after(next)
        },
        update: SegmentView { segment_id: id, ..u },
    }
}

impl SegmentTracker {
    pub fn new() -> (r: Self)
        ensures
            r@ == Map::<u64, u64>::empty(),
    {
        broadcast use vstd::std_specs::hash::group_hash_axioms;

        SegmentTracker { open: HashMap::new() }
    }

    /// Rewrite `update.segment_id` to its global id, allocating one the first
    /// time an engine-local id is seen. Finalizing an id releases the mapping
    /// (engines never update a segment after finalizing it).
    pub fn remap(&mut self, update: SegmentUpdate, ids: &mut SegmentIds) -> (r: SegmentUpdate)
        ensures
            (Remapped { open: final(self)@, next: final(ids)@, update: r@ }) == remapped(
                old(self)@,
                old(ids)@,
                update@,
            ),
    {
        broadcast use vstd::std_specs::hash::group_hash_axioms;

        let known: Option<u64> = if update.is_final {
            self.open.remove(&update.segment_id)
        } else {
            match self.open.get(&update.segment_id) {
                Some(id) => Some(*id),
                None => None,
            }
        };
        let id: u64 = match known {
            Some(id) => id,
            None => {
                let id: u64 = ids.next();
                if !update.is_final {
                    self.open.insert(update.segment_id, id);
                }
                id
            },
        };
        assert(self@ =~= remapped(old(self)@, old(ids)@, update@).open);
        let mut r = update;
        r.segment_id = id;
        r
    }

    /// Whether no segment is open.
    pub fn is_empty(&self) -> (r: bool)
        ensures
            r == self@.is_empty(),
    {
        broadcast use vstd::std_specs::hash::group_hash_axioms;

        let r = self.open.is_empty();
        r
    }
}

// ---------------------------------------------------------------------------
// Laws
// ---------------------------------------------------------------------------

/// The updates that come out, over any number of updates going in.
pub open spec fn remapped_all(open: Map<u64, u64>, next: u64, updates: Seq<SegmentView>) -> Seq<
    SegmentView,
>
    decreases updates.len(),
{
    if updates.len() == 0 {
        Seq::empty()
    } else {
        let r = remapped(open, next, updates[0]);
        seq![r.update] + remapped_all(r.open, r.next, updates.skip(1))
    }
}

/// Every open segment has a global id that was handed out before `next`, and no two
/// have the same.
pub open spec fn sound(open: Map<u64, u64>, next: u64) -> bool {
    &&& forall|k: u64| #[trigger] open.dom().contains(k) ==> open[k] < next
    &&& forall|j: u64, k: u64|
        #[trigger] open.dom().contains(j) && #[trigger] open.dom().contains(k) && open[j] == open[k]
            ==> j == k
}

/// A fresh tracker is sound whatever the counter, and stays sound with every update
/// (until the counter wraps around).
pub proof fn law_open_ids_stay_distinct(open: Map<u64, u64>, next: u64, u: SegmentView)
    requires
        sound(open, next),
        next < u64::MAX,
    ensures
        sound(Map::empty(), next),
        sound(remapped(open, next, u).open, remapped(open, next, u).next),
{
}

/// A revised segment keeps one global id: updates of the same engine-local id come
/// out under the same global id as long as no final one of that id has come between,
/// whatever other segments do meanwhile.
pub proof fn law_open_segment_keeps_its_id(
    open: Map<u64, u64>,
    next: u64,
    updates: Seq<SegmentView>,
    local: u64,
    i: int,
)
    requires
        open.dom().contains(local),
        0 <= i < updates.len(),
        updates[i].segment_id == local,
        forall|j: int| 0 <= j < i && (#[trigger] updates[j]).segment_id == local ==> !updates[j].is_final,
    ensures
        remapped_all(open, next, updates).len() == updates.len(),
        remapped_all(open, next, updates)[i].segment_id == open[local],
    decreases updates.len(),
{
    let r = remapped(open, next, updates[0]);
    let rest = updates.skip(1);
    lemma_one_out_per_in(r.open, r.next, rest);
    if i > 0 {
        assert(updates[0].segment_id == local ==> !updates[0].is_final);
        assert forall|j: int|
            0 <= j < i - 1 && (#[trigger] rest[j]).segment_id == local implies !rest[j].is_final by {
            assert(rest[j] == updates[j + 1]);
        }
        law_open_segment_keeps_its_id(r.open, r.next, rest, local, i - 1);
        assert(remapped_all(open, next, updates)[i] == remapped_all(r.open, r.next, rest)[i - 1]);
    }
}

proof fn lemma_one_out_per_in(open: Map<u64, u64>, next: u64, updates: Seq<SegmentView>)
    ensures
        remapped_all(open, next, updates).len() == updates.len(),
    decreases updates.len(),
{
    if updates.len() > 0 {
        let r = remapped(open, next, updates[0]);
        lemma_one_out_per_in(r.open, r.next, updates.skip(1));
    }
}

/// Where `id` is open, it is open for exactly one engine-local id; ids from `next` on
/// are not open. So an id is either open, or released, or still to come.
pub open spec fn released(open: Map<u64, u64>, next: u64, id: u64) -> bool {
    id < next && forall|k: u64| #[trigger] open.dom().contains(k) ==> open[k] != id
}

/// Global ids are never reused: once a segment has come out final, its global id does
/// not come out again (until the counter wraps around).
pub proof fn law_final_id_is_never_reused(
    open: Map<u64, u64>,
    next: u64,
    updates: Seq<SegmentView>,
    i: int,
    j: int,
)
    requires
        sound(open, next),
        next + updates.len() < u64::MAX,
        0 <= i < j < updates.len(),
        updates[i].is_final,
    ensures
        remapped_all(open, next, updates).len() == updates.len(),
        remapped_all(open, next, updates)[i].is_final,
        remapped_all(open, next, updates)[i].segment_id != remapped_all(
            open,
            next,
            updates,
        )[j].segment_id,
    decreases updates.len(),
{
    let r = remapped(open, next, updates[0]);
    let rest = updates.skip(1);
    lemma_one_out_per_in(r.open, r.next, rest);
    law_open_ids_stay_distinct(open, next, updates[0]);
    assert(remapped_all(open, next, updates)[j] == remapped_all(r.open, r.next, rest)[j - 1]);
    if i > 0 {
        assert(rest[i - 1] == updates[i]);
        law_final_id_is_never_reused(r.open, r.next, rest, i - 1, j - 1);
        assert(remapped_all(open, next, updates)[i] == remapped_all(r.open, r.next, rest)[i - 1]);
    } else {
        let id = r.update.segment_id;
        assert(released(r.open, r.next, id));
        lemma_released_does_not_return(r.open, r.next, rest, id, j - 1);
    }
}

proof fn lemma_released_does_not_return(
    open: Map<u64, u64>,
    next: u64,
    updates: Seq<SegmentView>,
    id: u64,
    j: int,
)
    requires
        sound(open, next),
        next + updates.len() < u64::MAX,
        released(open, next, id),
        0 <= j < updates.len(),
    ensures
        remapped_all(open, next, updates).len() == updates.len(),
        remapped_all(open, next, updates)[j].segment_id != id,
    decreases updates.len(),
{
    let r = remapped(open, next, updates[0]);
    let rest = updates.skip(1);
    lemma_one_out_per_in(r.open, r.next, rest);
    law_open_ids_stay_distinct(open, next, updates[0]);
    if j > 0 {
        lemma_released_does_not_return(r.open, r.next, rest, id, j - 1);
        assert(remapped_all(open, next, updates)[j] == remapped_all(r.open, r.next, rest)[j - 1]);
    }
}

/// A segment's text and finality pass through unchanged.
pub proof fn law_remapping_only_renames(open: Map<u64, u64>, next: u64, u: SegmentView)
    ensures
        remapped(open, next, u).update == (SegmentView {
            segment_id: remapped(open, next, u).update.segment_id,
            ..u
        }),
{
}

// ---------------------------------------------------------------------------
// Many trackers on one counter
// ---------------------------------------------------------------------------

/// The open segments of tracker `t`; one that was never used has none.
pub open spec fn opened_by(opens: Map<int, Map<u64, u64>>, t: int) -> Map<u64, u64> {
    if opens.dom().contains(t) {
        opens[t]
    } else {
        Map::empty()
    }
}

/// What comes out over any number of updates, each going into the tracker it names,
/// where the trackers draw from one counter: one tracker per session, one counter for
/// all sessions.
pub open spec fn shared_remapped(
    opens: Map<int, Map<u64, u64>>,
    next: u64,
    updates: Seq<(int, SegmentView)>,
) -> Seq<SegmentView>
    decreases updates.len(),
{
    if updates.len() == 0 {
        Seq::empty()
    } else {
        let t = updates[0].0;
        let r = remapped(opened_by(opens, t), next, updates[0].1);
        seq![r.update] + shared_remapped(opens.insert(t, r.open), r.next, updates.skip(1))
    }
}

/// Updates of one segment: the same tracker and the same engine-local id.
pub open spec fn same_segment(a: (int, SegmentView), b: (int, SegmentView)) -> bool {
    a.0 == b.0 && a.1.segment_id == b.1.segment_id
}

/// No update from `i` up to `j` closes the segment of update `j`.
pub open spec fn unclosed(updates: Seq<(int, SegmentView)>, i: int, j: int) -> bool {
    forall|k: int|
        i <= k < j && same_segment(#[trigger] updates[k], updates[j]) ==> !updates[k].1.is_final
}

/// Every open segment of every tracker has a global id that was handed out before
/// `next`, and no two have the same.
pub open spec fn all_sound(opens: Map<int, Map<u64, u64>>, next: u64) -> bool {
    &&& forall|t: int, k: u64| #[trigger]
        opened_by(opens, t).dom().contains(k) ==> opened_by(opens, t)[k] < next
    &&& forall|s: int, j: u64, t: int, k: u64| #[trigger]
        opened_by(opens, s).dom().contains(j) && #[trigger] opened_by(opens, t).dom().contains(k)
            && opened_by(opens, s)[j] == opened_by(opens, t)[k] ==> s == t && j == k
}

proof fn lemma_all_stay_sound(opens: Map<int, Map<u64, u64>>, next: u64, t: int, u: SegmentView)
    requires
        all_sound(opens, next),
        next < u64::MAX,
    ensures
        ({
            let r = remapped(opened_by(opens, t), next, u);
            &&& all_sound(opens.insert(t, r.open), r.next)
            &&& r.next <= next + 1
            &&& next <= r.next
        }),
{
    let r = remapped(opened_by(opens, t), next, u);
    let after = opens.insert(t, r.open);
    assert forall|s: int| s != t implies #[trigger] opened_by(after, s) == opened_by(opens, s) by {}
    assert(opened_by(after, t) == r.open);
}

proof fn lemma_one_out_per_shared_in(
    opens: Map<int, Map<u64, u64>>,
    next: u64,
    updates: Seq<(int, SegmentView)>,
)
    ensures
        shared_remapped(opens, next, updates).len() == updates.len(),
    decreases updates.len(),
{
    if updates.len() > 0 {
        let t = updates[0].0;
        let r = remapped(opened_by(opens, t), next, updates[0].1);
        lemma_one_out_per_shared_in(opens.insert(t, r.open), r.next, updates.skip(1));
    }
}

/// A segment that is open keeps its id as long as nothing closes it.
proof fn lemma_open_keeps_its_id(
    opens: Map<int, Map<u64, u64>>,
    next: u64,
    updates: Seq<(int, SegmentView)>,
    j: int,
)
    requires
        0 <= j < updates.len(),
        opened_by(opens, updates[j].0).dom().contains(updates[j].1.segment_id),
        unclosed(updates, 0, j),
    ensures
        shared_remapped(opens, next, updates).len() == updates.len(),
        shared_remapped(opens, next, updates)[j].segment_id == opened_by(
            opens,
            updates[j].0,
        )[updates[j].1.segment_id],
    decreases updates.len(),
{
    lemma_one_out_per_shared_in(opens, next, updates);
    if j > 0 {
        let t = updates[0].0;
        let r = remapped(opened_by(opens, t), next, updates[0].1);
        let after = opens.insert(t, r.open);
        let rest = updates.skip(1);
        assert(rest[j - 1] == updates[j]);
        assert(same_segment(updates[0], updates[j]) ==> !updates[0].1.is_final);
        assert forall|k: int| 0 <= k < j - 1 && same_segment(#[trigger] rest[k], rest[j - 1]) implies
            !rest[k].1.is_final by {
            assert(rest[k] == updates[k + 1]);
        }
        lemma_one_out_per_shared_in(after, r.next, rest);
        lemma_open_keeps_its_id(after, r.next, rest, j - 1);
        assert(shared_remapped(opens, next, updates)[j] == shared_remapped(after, r.next, rest)[j
            - 1]);
    }
}

/// An id that was handed out before comes out again only for the segment that has it
/// open.
proof fn lemma_old_id_is_its_segments(
    opens: Map<int, Map<u64, u64>>,
    next: u64,
    updates: Seq<(int, SegmentView)>,
    id: u64,
    j: int,
)
    requires
        all_sound(opens, next),
        next + updates.len() < u64::MAX,
        id < next,
        0 <= j < updates.len(),
        shared_remapped(opens, next, updates)[j].segment_id == id,
    ensures
        opened_by(opens, updates[j].0).dom().contains(updates[j].1.segment_id),
        opened_by(opens, updates[j].0)[updates[j].1.segment_id] == id,
        unclosed(updates, 0, j),
    decreases updates.len(),
{
    if j > 0 {
        let t = updates[0].0;
        let r = remapped(opened_by(opens, t), next, updates[0].1);
        let after = opens.insert(t, r.open);
        let rest = updates.skip(1);
        lemma_all_stay_sound(opens, next, t, updates[0].1);
        lemma_one_out_per_shared_in(after, r.next, rest);
        assert(shared_remapped(opens, next, updates)[j] == shared_remapped(after, r.next, rest)[j
            - 1]);
        assert(rest[j - 1] == updates[j]);
        lemma_old_id_is_its_segments(after, r.next, rest, id, j - 1);
        if updates[j].0 == t {
            assert(opened_by(after, t) == r.open);
        } else {
            assert(opened_by(after, updates[j].0) == opened_by(opens, updates[j].0));
        }
        assert forall|k: int| 0 <= k < j && same_segment(#[trigger] updates[k], updates[j]) implies
            !updates[k].1.is_final by {
            if k > 0 {
                assert(rest[k - 1] == updates[k]);
                assert(same_segment(rest[k - 1], rest[j - 1]));
            }
        }
    }
}

/// Whatever trackers share a counter, across sessions and engines: two updates come
/// out under one global id exactly if they are of the same segment of the same
/// tracker and no final update of it came between. (The counter must not wrap
/// around.)
pub proof fn law_global_ids_are_of_one_segment(
    next: u64,
    updates: Seq<(int, SegmentView)>,
    i: int,
    j: int,
)
    requires
        next + updates.len() < u64::MAX,
        0 <= i < j < updates.len(),
    ensures
        ({
            let out = shared_remapped(Map::empty(), next, updates);
            &&& out.len() == updates.len()
            &&& out[i].segment_id == out[j].segment_id <==> same_segment(updates[i], updates[j])
                && unclosed(updates, i, j)
        }),
{
    lemma_ids_are_of_one_segment(Map::empty(), next, updates, i, j);
}

proof fn lemma_ids_are_of_one_segment(
    opens: Map<int, Map<u64, u64>>,
    next: u64,
    updates: Seq<(int, SegmentView)>,
    i: int,
    j: int,
)
    requires
        all_sound(opens, next),
        next + updates.len() < u64::MAX,
        0 <= i < j < updates.len(),
    ensures
        ({
            let out = shared_remapped(opens, next, updates);
            &&& out.len() == updates.len()
            &&& out[i].segment_id == out[j].segment_id <==> same_segment(updates[i], updates[j])
                && unclosed(updates, i, j)
        }),
    decreases updates.len(),
{
    let t = updates[0].0;
    let u = updates[0].1;
    let r = remapped(opened_by(opens, t), next, u);
    let after = opens.insert(t, r.open);
    let rest = updates.skip(1);
    let out = shared_remapped(opens, next, updates);
    let out_rest = shared_remapped(after, r.next, rest);
    lemma_all_stay_sound(opens, next, t, u);
    lemma_one_out_per_shared_in(opens, next, updates);
    lemma_one_out_per_shared_in(after, r.next, rest);
    assert(out[j] == out_rest[j - 1]);
    assert(rest[j - 1] == updates[j]);
    if i > 0 {
        lemma_ids_are_of_one_segment(after, r.next, rest, i - 1, j - 1);
        assert(out[i] == out_rest[i - 1]);
        assert(rest[i - 1] == updates[i]);
        lemma_unclosed_shifts(updates, i, j);
    } else {
        let id = r.update.segment_id;
        assert(opened_by(after, t) == r.open);
        assert(id < r.next);
        lemma_unclosed_from_the_front(updates, j);
        if out[j].segment_id == id {
            lemma_old_id_is_its_segments(after, r.next, rest, id, j - 1);
            let s = updates[j].0;
            let k = updates[j].1.segment_id;
            if u.is_final {
                if s == t {
                    assert(opened_by(opens, t).dom().contains(k));
                    if opened_by(opens, t).dom().contains(u.segment_id) {
                        assert(k == u.segment_id);
                    }
                } else {
                    assert(opened_by(after, s) == opened_by(opens, s));
                    if opened_by(opens, t).dom().contains(u.segment_id) {
                        assert(opened_by(opens, s).dom().contains(k));
                    }
                }
                assert(false);
            } else {
                assert(opened_by(after, t).dom().contains(u.segment_id));
                assert(s == t && k == u.segment_id);
            }
        }
        if same_segment(updates[0], updates[j]) && unclosed(updates, 0, j) {
            assert(!updates[0].1.is_final);
            lemma_open_keeps_its_id(after, r.next, rest, j - 1);
        }
    }
}

proof fn lemma_unclosed_shifts(updates: Seq<(int, SegmentView)>, i: int, j: int)
    requires
        0 < i < j < updates.len(),
    ensures
        unclosed(updates, i, j) == unclosed(updates.skip(1), i - 1, j - 1),
{
    let rest = updates.skip(1);
    assert(rest[j - 1] == updates[j]);
    if unclosed(updates, i, j) {
        assert forall|k: int| i - 1 <= k < j - 1 && same_segment(#[trigger] rest[k], rest[j - 1])
            implies !rest[k].1.is_final by {
            assert(rest[k] == updates[k + 1]);
        }
    }
    if unclosed(rest, i - 1, j - 1) {
        assert forall|k: int| i <= k < j && same_segment(#[trigger] updates[k], updates[j]) implies
            !updates[k].1.is_final by {
            assert(rest[k - 1] == updates[k]);
        }
    }
}

proof fn lemma_unclosed_from_the_front(updates: Seq<(int, SegmentView)>, j: int)
    requires
        0 < j < updates.len(),
    ensures
        unclosed(updates, 0, j) == (unclosed(updates.skip(1), 0, j - 1) && (same_segment(
            updates[0],
            updates[j],
        ) ==> !updates[0].1.is_final)),
{
    let rest = updates.skip(1);
    assert(rest[j - 1] == updates[j]);
    if unclosed(updates, 0, j) {
        assert forall|k: int| 0 <= k < j - 1 && same_segment(#[trigger] rest[k], rest[j - 1]) implies
            !rest[k].1.is_final by {
            assert(rest[k] == updates[k + 1]);
        }
        assert(same_segment(updates[0], updates[j]) ==> !updates[0].1.is_final);
    }
    if unclosed(rest, 0, j - 1) && (same_segment(updates[0], updates[j]) ==> !updates[0].1.is_final) {
        assert forall|k: int| 0 <= k < j && same_segment(#[trigger] updates[k], updates[j]) implies
            !updates[k].1.is_final by {
            if k > 0 {
                assert(rest[k - 1] == updates[k]);
                assert(same_segment(rest[k - 1], rest[j - 1]));
            }
        }
    }
}

/// Global ids are handed out without gaps: an update either takes the next one, which
/// moves the counter on by one, or one that was handed out before, which leaves it.
pub proof fn law_ids_are_handed_out_without_gaps(open: Map<u64, u64>, next: u64, u: SegmentView)
    requires
        sound(open, next),
        next < u64::MAX,
    ensures
        ({
            let r = remapped(open, next, u);
            &&& r.update.segment_id <= next
            &&& r.next == if r.update.segment_id == next {
                next + 1
            } else {
                next as int
            }
        }),
{
}

} // verus!
