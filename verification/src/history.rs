//! Laws of the history: what the ring holds after a series of commits, and
//! what walking back through it shows.

use vstd::prelude::*;
use vstd::arithmetic::div_mod::{lemma_mod_bound, lemma_mod_equivalence, lemma_small_mod};
use crate::buffers::BuffersView;
use crate::line::LineView;

verus! {

impl BuffersView {
    /// A ring of `depth` empty lines with no history.
    pub open spec fn fresh(depth: int) -> BuffersView {
        BuffersView {
            lines: Seq::new(depth as nat, |i: int| LineView::empty()),
            last_idx: 0,
            offset: 0,
        }
    }

    /// The ring after `presses` requests for the previous line: the selection
    /// moves back one line each time, and stays at the oldest retained line.
    pub open spec fn pressed_prev(self, presses: nat) -> BuffersView
        decreases presses,
    {
        if presses == 0 {
            self
        } else {
            let ring = self.pressed_prev((presses - 1) as nat);
            ring.selecting(
                if ring.offset < ring.retained() {
                    ring.offset + 1
                } else {
                    ring.offset
                },
            )
        }
    }
}

/// The ring of `depth` slots after each of `entered` was typed into the line
/// in progress and committed, in this order, beginning with a fresh ring.
pub open spec fn after_commits(depth: int, entered: Seq<Seq<u8>>) -> BuffersView
    decreases entered.len(),
{
    if entered.len() == 0 {
        BuffersView::fresh(depth)
    } else {
        after_commits(depth, entered.drop_last()).edited(
            LineView::typed(entered.last()),
        ).committed()
    }
}

/// Two places of the ring that lie less than its depth apart are different
/// slots.
pub proof fn lemma_slots_differ(a: int, b: int, depth: int)
    requires
        0 < a - b < depth,
    ensures
        a % depth != b % depth,
{
    lemma_mod_equivalence(a, b, depth);
    lemma_small_mod((a - b) as nat, depth as nat);
}

/// Requests for the previous line move the selection back by one each, up to
/// the number of retained lines, and change nothing else.
pub proof fn lemma_pressed_prev(ring: BuffersView, presses: nat)
    requires
        0 <= ring.offset <= ring.retained(),
    ensures
        ring.pressed_prev(presses) == ring.selecting(
            if ring.offset + presses <= ring.retained() {
                ring.offset + presses
            } else {
                ring.retained()
            },
        ),
    decreases presses,
{
    if presses > 0 {
        lemma_pressed_prev(ring, (presses - 1) as nat);
    }
}

/// The history wraps around. After the lines `entered` were committed to a
/// ring of `depth` slots, the ring holds an empty line in progress and the
/// `depth - 1` lines committed last, or all of them where they are fewer: the
/// line committed `back` commits ago is the `back`-th from the end of
/// `entered`. One slot of the ring always belongs to the line in progress, so
/// with every commit beyond `depth - 1` the oldest retained line is lost.
pub proof fn lemma_history_wraps(depth: int, capacity: int, entered: Seq<Seq<u8>>)
    requires
        depth >= 1,
        capacity >= 0,
        entered.len() <= usize::MAX,
        forall|i: int| 0 <= i < entered.len() ==> (#[trigger] entered[i]).len() <= capacity,
    ensures
        ({
            let ring = after_commits(depth, entered);
            let n = entered.len() as int;
            &&& ring.depth() == depth
            &&& ring.fits(capacity)
            &&& ring.last_idx == n
            &&& ring.offset == 0
            &&& ring.current() == LineView::empty()
            &&& ring.retained() == (if n < depth - 1 {
                n
            } else {
                depth - 1
            })
            &&& forall|back: int|
                1 <= back <= ring.retained() ==> #[trigger] ring.entry(back) == LineView::typed(
                    entered[n - back],
                )
        }),
    decreases entered.len(),
{
    let ring = after_commits(depth, entered);
    let n = entered.len() as int;
    if n > 0 {
        let m = n - 1;
        let earlier = after_commits(depth, entered.drop_last());
        let typed = LineView::typed(entered.last());
        let mid = earlier.edited(typed);
        lemma_history_wraps(depth, capacity, entered.drop_last());
        lemma_mod_bound(m, depth);
        lemma_mod_bound(n, depth);
        assert(ring.lines == mid.lines.update(m % depth, typed).update(
            n % depth,
            LineView::empty(),
        ));
        assert forall|back: int| 1 <= back <= ring.retained() implies #[trigger] ring.entry(back)
            == LineView::typed(entered[n - back]) by {
            lemma_mod_bound(n - back, depth);
            lemma_slots_differ(n, n - back, depth);
            if back > 1 {
                lemma_slots_differ(m, n - back, depth);
                assert(ring.entry(back) == earlier.entry(back - 1));
            }
        }
    }
}

/// After the lines `entered` were committed, asking for the previous line
/// `presses` times shows the line entered `presses` commits ago, as long as
/// the ring retains it, and then stays at the oldest retained line: no number
/// of requests shows an older one.
pub proof fn lemma_history_navigation(
    depth: int,
    capacity: int,
    entered: Seq<Seq<u8>>,
    presses: nat,
)
    requires
        depth >= 1,
        capacity >= 0,
        entered.len() <= usize::MAX,
        forall|i: int| 0 <= i < entered.len() ==> (#[trigger] entered[i]).len() <= capacity,
    ensures
        ({
            let ring = after_commits(depth, entered);
            let n = entered.len() as int;
            let reach = if presses <= ring.retained() {
                presses as int
            } else {
                ring.retained()
            };
            &&& ring.retained() <= depth - 1
            &&& ring.pressed_prev(presses).offset == reach
            &&& ring.pressed_prev(presses).current() == (if reach == 0 {
                LineView::empty()
            } else {
                LineView::typed(entered[n - reach])
            })
        }),
{
    let ring = after_commits(depth, entered);
    lemma_history_wraps(depth, capacity, entered);
    lemma_pressed_prev(ring, presses);
    let reach = if presses <= ring.retained() {
        presses as int
    } else {
        ring.retained()
    };
    if reach > 0 {
        assert(ring.selecting(reach).current() == ring.entry(reach));
    }
}

} // verus!
