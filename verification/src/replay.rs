//! The replay laws of the random-byte ledger. A run of reads is modelled as
//! a fold of the single-read step that [`crate::cache::RandCache::get_u8`]
//! promises in its contract: below the frontier a read replays the ledger
//! byte, at the frontier it consumes the next byte of a fresh stream and
//! appends it. The lemmas here state what the design is for: the ledger only
//! ever grows, and any rerun from the start yields the bytes of the first
//! run, whatever fresh bytes the source would supply the second time.

use crate::cache::{step_ledger, step_output};
use vstd::prelude::*;

verus! {

/// The fresh stream that is left after one read: untouched by a replay,
/// shortened by one by a read at the frontier.
pub open spec fn step_fresh(l: Seq<u8>, c: int, fresh: Seq<u8>) -> Seq<u8> {
    if c < l.len() {
        fresh
    } else {
        fresh.drop_first()
    }
}

/// The ledger after `n` reads starting at cursor `c`, with `fresh`
/// supplying the bytes of the reads at the frontier.
pub open spec fn run_ledger(l: Seq<u8>, c: int, fresh: Seq<u8>, n: nat) -> Seq<u8>
    decreases n,
{
    if n == 0 {
        l
    } else {
        run_ledger(
            step_ledger(l, c, fresh.first()),
            c + 1,
            step_fresh(l, c, fresh),
            (n - 1) as nat,
        )
    }
}

/// The bytes that `n` reads starting at cursor `c` hand out, in order.
pub open spec fn run_outputs(l: Seq<u8>, c: int, fresh: Seq<u8>, n: nat) -> Seq<u8>
    decreases n,
{
    if n == 0 {
        Seq::<u8>::empty()
    } else {
        seq![step_output(l, c, fresh.first())] + run_outputs(
            step_ledger(l, c, fresh.first()),
            c + 1,
            step_fresh(l, c, fresh),
            (n - 1) as nat,
        )
    }
}

/// What any run does to the ledger: it never shrinks it and never rewrites
/// a filled position — the old ledger stays a prefix — it grows it exactly
/// to the last position read, and every byte handed out is the final ledger
/// byte of its position.
pub proof fn lemma_run(l: Seq<u8>, c: int, fresh: Seq<u8>, n: nat)
    requires
        0 <= c <= l.len(),
    ensures
        run_ledger(l, c, fresh, n).len() == if c + n <= l.len() {
            l.len() as int
        } else {
            c + n
        },
        l.is_prefix_of(run_ledger(l, c, fresh, n)),
        run_outputs(l, c, fresh, n) =~= run_ledger(l, c, fresh, n).subrange(c, c + n),
    decreases n,
{
    if n > 0 {
        let l1 = step_ledger(l, c, fresh.first());
        let f1 = step_fresh(l, c, fresh);
        lemma_run(l1, c + 1, f1, (n - 1) as nat);
        assert(l.is_prefix_of(l1));
        let lfin = run_ledger(l, c, fresh, n);
        assert(l1.is_prefix_of(lfin));
        assert forall|i: int| 0 <= i < l.len() implies l[i] == lfin[i] by {
            assert(l[i] == l1[i]);
            assert(l1[i] == lfin[i]);
        }
        assert(l.is_prefix_of(lfin));
        assert(step_output(l, c, fresh.first()) == l1[c]);
        assert(l1[c] == lfin[c]);
    }
}

/// Monotonic ledger growth: no sequence of reads, wherever the cursor
/// stands, ever shortens the ledger or rewrites a filled position.
pub proof fn lemma_ledger_monotonic(l: Seq<u8>, c: int, fresh: Seq<u8>, n: nat)
    requires
        0 <= c <= l.len(),
    ensures
        l.is_prefix_of(run_ledger(l, c, fresh, n)),
{
    lemma_run(l, c, fresh, n);
}

/// Determinism under replay: run `n` reads from the start of any ledger,
/// then rewind and run `n` reads again. The second run hands out exactly
/// the bytes of the first, whatever fresh bytes either run would have drawn
/// — the second run never reaches the frontier, so the stream of the first
/// run is replayed byte for byte. And since it also leaves the ledger
/// exactly as the first run left it, every further repetition yields the
/// same bytes again.
pub proof fn lemma_replay_deterministic(l: Seq<u8>, fresh1: Seq<u8>, fresh2: Seq<u8>, n: nat)
    ensures
        run_outputs(run_ledger(l, 0, fresh1, n), 0, fresh2, n) =~= run_outputs(l, 0, fresh1, n),
        run_ledger(run_ledger(l, 0, fresh1, n), 0, fresh2, n) =~= run_ledger(l, 0, fresh1, n),
{
    let l1 = run_ledger(l, 0, fresh1, n);
    lemma_run(l, 0, fresh1, n);
    lemma_run(l1, 0, fresh2, n);
    assert(n <= l1.len());
    assert(run_ledger(l1, 0, fresh2, n).len() == l1.len());
    assert(l1.is_prefix_of(run_ledger(l1, 0, fresh2, n)));
    assert(run_ledger(l1, 0, fresh2, n) =~= l1);
}

/// The three bytes a draw cycle reads for its foreground color, in red,
/// green, blue call order: the first three reads after a rewind to the
/// start.
pub open spec fn draw_color_reads(l: Seq<u8>, fresh: Seq<u8>) -> Seq<u8> {
    run_outputs(l, 0, fresh, 3)
}

/// Surface resize independence, on the random side: a second draw cycle —
/// triggered by a resize, with whatever new surface dimensions — reads the
/// same three color bytes as the first. The dimensions do not appear in the
/// model at all: only the ledger that the first cycle left behind enters,
/// and replay from the start pins the bytes.
pub proof fn lemma_redraw_same_color(l: Seq<u8>, fresh1: Seq<u8>, fresh2: Seq<u8>)
    ensures
        draw_color_reads(run_ledger(l, 0, fresh1, 3), fresh2) =~= draw_color_reads(l, fresh1),
{
    lemma_replay_deterministic(l, fresh1, fresh2, 3);
}

} // verus!
