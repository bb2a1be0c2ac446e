//! Generating a ramp-shaped test sequence.
//!
//! The generator distributes `max_entry` increments over a fixed-length
//! array through a sliding window: a cursor walks from `start` to `end`,
//! bumping each slot by one; the window's end grows by one slot each
//! sweep until it reaches the array's last slot, and the window's start
//! advances past a slot once that slot reaches the saturation height.
//! The whole walk is mirrored by a step-for-step spec model, and the
//! result is pinned to that model's final state.

use vstd::prelude::*;

verus! {

/// Number of slots in a generated sequence.
pub const SEQUENCE_LENGTH: usize = 257;

/// Saturation height: the window's start moves past a slot that reaches
/// this count.
pub const SEQUENCE_HEIGHT: u32 = 16777216;

/// A walk state: the slots, the cursor, the window start, the window end,
/// and the number of increments made.
pub open spec fn spec_sequence_init() -> (Seq<u32>, int, int, int, int) {
    (Seq::new(SEQUENCE_LENGTH as nat, |i: int| 0u32), 0, 0, 0, 0)
}

/// One step of the walk: bump the slot under the cursor, advance the
/// cursor, grow the window at its end on wrap-around, advance the window's
/// start past a saturated slot, and count the increment.
pub open spec fn spec_sequence_step(st: (Seq<u32>, int, int, int, int)) -> (
    Seq<u32>,
    int,
    int,
    int,
    int,
) {
    let (s, x, start, end, count) = st;
    let s1 = s.update(x, (s[x] + 1) as u32);
    let x1 = x + 1;
    let end1 = if x1 > end && end < SEQUENCE_LENGTH - 1 {
        end + 1
    } else {
        end
    };
    let x2 = if x1 > end {
        start
    } else {
        x1
    };
    let start1 = if x2 == start && s1[start] == SEQUENCE_HEIGHT {
        start + 1
    } else {
        start
    };
    let x3 = if x2 == start && s1[start] == SEQUENCE_HEIGHT {
        start1
    } else {
        x2
    };
    (s1, x3, start1, end1, count + 1)
}

/// Run the walk until `max_entry` increments were made or the window
/// collapsed.
pub open spec fn spec_sequence_final(st: (Seq<u32>, int, int, int, int), max_entry: u32) -> (
    Seq<u32>,
    int,
    int,
    int,
    int,
)
    decreases max_entry - st.4,
{
    if st.4 >= max_entry || st.2 > st.3 {
        st
    } else {
        spec_sequence_final(spec_sequence_step(st), max_entry)
    }
}

/// A state the walk has stopped in: the increments are spent or the
/// window has collapsed.
pub open spec fn spec_sequence_done(st: (Seq<u32>, int, int, int, int), max_entry: u32) -> bool {
    st.4 >= max_entry || st.2 > st.3
}

/// The walk's final state is always a stopped state.
proof fn lemma_sequence_final_done(st: (Seq<u32>, int, int, int, int), max_entry: u32)
    ensures
        spec_sequence_done(spec_sequence_final(st, max_entry), max_entry),
    decreases max_entry - st.4,
{
    if !spec_sequence_done(st, max_entry) {
        lemma_sequence_final_done(spec_sequence_step(st), max_entry);
    }
}

/// The slots after distributing `max_entry` increments through the
/// sliding-window walk.  Every slot stays at or below `max_entry`.
pub fn generate_sequence(max_entry: u32) -> (r: [u32; 257])
    requires
        max_entry >= 1,
    ensures
        r@ == spec_sequence_final(spec_sequence_init(), max_entry).0,
        forall|j: int| 0 <= j < 257 ==> r@[j] <= max_entry,
{
    let mut sequence: [u32; 257] = [0; 257];
    let mut x: usize = 0;
    let mut start: usize = 0;
    let mut end: usize = 0;
    let mut count: u32 = 0;
    proof {
        assert(sequence@ =~= spec_sequence_init().0);
        assert((sequence@, x as int, start as int, end as int, count as int)
            == spec_sequence_init());
    }
    while count < max_entry && start <= end
        invariant
            max_entry >= 1,
            end < 257,
            count <= max_entry,
            forall|j: int| 0 <= j < 257 ==> sequence@[j] <= count,
            ((sequence@, x as int, start as int, end as int, count as int)
                == spec_sequence_final(spec_sequence_init(), max_entry)) || (spec_sequence_final(
                (sequence@, x as int, start as int, end as int, count as int),
                max_entry,
            ) == spec_sequence_final(spec_sequence_init(), max_entry) && count < max_entry && start
                <= x <= end),
        decreases max_entry - count,
    {
        let ghost pre = (sequence@, x as int, start as int, end as int, count as int);
        proof {
            lemma_sequence_final_done(spec_sequence_init(), max_entry);
        }
        sequence[x] = sequence[x] + 1;
        x = x + 1;
        if x > end {
            if end < 256 {
                end = end + 1;
            }
            x = start;
        }
        if x == start && sequence[start] == SEQUENCE_HEIGHT {
            start = start + 1;
            x = start;
        }
        count = count + 1;
        proof {
            let cur = (sequence@, x as int, start as int, end as int, count as int);
            assert(cur == spec_sequence_step(pre));
            assert(!spec_sequence_done(pre, max_entry));
            assert(spec_sequence_final(pre, max_entry) == spec_sequence_final(cur, max_entry));
            assert(spec_sequence_final(cur, max_entry) == spec_sequence_final(
                spec_sequence_init(),
                max_entry,
            ));
            if count >= max_entry || start > end {
                assert(spec_sequence_final(cur, max_entry) == cur);
                assert(cur == spec_sequence_final(spec_sequence_init(), max_entry));
            }
        }
    }
    proof {
        lemma_sequence_final_done(spec_sequence_init(), max_entry);
    }
    sequence
}

} // verus!
