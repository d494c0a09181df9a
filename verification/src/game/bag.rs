use vstd::prelude::*;

use super::game_state::BagMode;
use super::piece::{Tetromino, all_pieces, all_pieces_seq, mirrored_piece, spec_mirrored_piece};
use super::rng::{rng_from_seed, rng_gen_range, rng_gen_u16, rng_shuffle_range};

verus! {

/// Produces the piece queue: an optional fixed opening sequence, then bags
/// drawn from a seeded generator.
#[derive(Debug, Clone, PartialEq, Eq)]
pub struct QueueGenerator {
    pub mode: BagMode,
    pub seed: u16,
    pub static_sequence: Vec<Tetromino>,
}

/// One bag as the generator draws it in `mode`: the seven pieces in some
/// order, the seven pieces twice in some order, or seven pieces each drawn
/// independently.
pub open spec fn valid_bag(mode: BagMode, chunk: Seq<Tetromino>) -> bool {
    match mode {
        BagMode::SevenBag => chunk.len() == 7 && chunk.to_multiset() == all_pieces_seq().to_multiset(),
        BagMode::FourteenBag => chunk.len() == 14 && chunk.to_multiset() == all_pieces_seq().to_multiset().add(
            all_pieces_seq().to_multiset(),
        ),
        BagMode::Random => chunk.len() == 7 && forall|i: int|
            0 <= i < 7 ==> all_pieces_seq().contains(#[trigger] chunk[i]),
    }
}

/// What the queue holds before new bags are added: the fixed sequence when
/// there is one and the queue is empty, else the queue itself.
pub open spec fn queue_base(static_sequence: Seq<Tetromino>, queue: Seq<Tetromino>) -> Seq<Tetromino> {
    if static_sequence.len() > 0 && queue.len() == 0 {
        static_sequence
    } else {
        queue
    }
}

impl QueueGenerator {
    /// Same mode, seed and fixed sequence.
    pub open spec fn same_as(&self, other: &QueueGenerator) -> bool {
        &&& self.mode == other.mode
        &&& self.seed == other.seed
        &&& self.static_sequence@ == other.static_sequence@
    }

    /// A generator with no fixed sequence.
    pub fn new(mode: BagMode, seed: u16) -> (g: Self)
        ensures
            g.mode == mode,
            g.seed == seed,
            g.static_sequence@ == Seq::<Tetromino>::empty(),
    {
        QueueGenerator { mode, seed, static_sequence: Vec::new() }
    }

    /// A generator that opens with `static_sequence`.
    pub fn with_static_sequence(mode: BagMode, seed: u16, static_sequence: Vec<Tetromino>) -> (g: Self)
        ensures
            g.mode == mode,
            g.seed == seed,
            g.static_sequence@ == static_sequence@,
    {
        let mut generator = Self::new(mode, seed);
        generator.set_static_sequence(static_sequence);
        generator
    }

    /// Replaces the fixed opening sequence.
    pub fn set_static_sequence(&mut self, static_sequence: Vec<Tetromino>)
        ensures
            final(self).mode == old(self).mode,
            final(self).seed == old(self).seed,
            final(self).static_sequence@ == static_sequence@,
    {
        self.static_sequence = static_sequence;
    }

    /// Tops the queue up to at least seven pieces. An empty queue first
    /// receives the fixed sequence, if any; while fewer than seven pieces
    /// remain, one bag is drawn from the generator seeded with `seed`, and
    /// `seed` then moves on.
    pub fn fill_queue(&mut self, queue: &mut Vec<Tetromino>)
        ensures
            final(self).mode == old(self).mode,
            final(self).static_sequence@ == old(self).static_sequence@,
            ({
                let base = queue_base(old(self).static_sequence@, old(queue)@);
                if base.len() >= 7 {
                    final(queue)@ == base
                } else {
                    &&& final(queue)@.len() > base.len()
                    &&& final(queue)@.subrange(0, base.len() as int) == base
                    &&& valid_bag(
                        old(self).mode,
                        final(queue)@.subrange(base.len() as int, final(queue)@.len() as int),
                    )
                }
            }),
            final(queue)@.len() >= 7,
    {
        if self.static_sequence.len() > 0 && queue.len() == 0 {
            let mut i: usize = 0;
            while i < self.static_sequence.len()
                invariant
                    queue@ == self.static_sequence@.subrange(0, i as int),
                    i <= self.static_sequence@.len(),
                decreases self.static_sequence@.len() - i,
            {
                queue.push(self.static_sequence[i]);
                i += 1;
            }
            assert(queue@ =~= self.static_sequence@);
        }
        let ghost base = queue@;
        assert(base == queue_base(old(self).static_sequence@, old(queue)@));
        let mut rng = rng_from_seed(self.seed as u64);
        if queue.len() < 7 {
            match self.mode {
                BagMode::SevenBag => {
                    let mut bag = all_pieces();
                    rng_shuffle_range(&mut rng, &mut bag, 0, 7);
                    assert(bag@.subrange(0, 7) =~= bag@);
                    assert(all_pieces_seq().subrange(0, 7) =~= all_pieces_seq());
                    let ghost chunk = bag@;
                    queue.append(&mut bag);
                    assert(queue@.subrange(base.len() as int, queue@.len() as int) =~= chunk);
                },
                BagMode::FourteenBag => {
                    let mut bag = all_pieces();
                    let mut second = all_pieces();
                    bag.append(&mut second);
                    let ghost full = bag@;
                    rng_shuffle_range(&mut rng, &mut bag, 0, 14);
                    proof {
                        assert(bag@.subrange(0, 14) =~= bag@);
                        assert(full.subrange(0, 14) =~= full);
                        assert(full =~= all_pieces_seq() + all_pieces_seq());
                        vstd::seq_lib::lemma_multiset_commutative(all_pieces_seq(), all_pieces_seq());
                    }
                    let ghost chunk = bag@;
                    queue.append(&mut bag);
                    assert(queue@.subrange(base.len() as int, queue@.len() as int) =~= chunk);
                },
                BagMode::Random => {
                    let pieces = all_pieces();
                    let mut k: usize = 0;
                    while k < 7
                        invariant
                            k <= 7,
                            pieces@ == all_pieces_seq(),
                            queue@.len() == base.len() + k,
                            queue@.subrange(0, base.len() as int) == base,
                            forall|j: int|
                                base.len() <= j < queue@.len() ==> all_pieces_seq().contains(
                                    #[trigger] queue@[j],
                                ),
                        decreases 7 - k,
                    {
                        let idx = rng_gen_range(&mut rng, 0, 7);
                        let ghost before = queue@;
                        queue.push(pieces[idx]);
                        proof {
                            assert(all_pieces_seq()[idx as int] == queue@[queue@.len() - 1]);
                            assert(queue@.subrange(0, base.len() as int) =~= before.subrange(
                                0,
                                base.len() as int,
                            ));
                        }
                        k += 1;
                    }
                },
            }
            proof {
                let q = queue@;
                assert(q.subrange(0, base.len() as int) =~= base);
                if self.mode == BagMode::Random {
                    let chunk = q.subrange(base.len() as int, q.len() as int);
                    assert forall|i: int| 0 <= i < 7 implies all_pieces_seq().contains(
                        #[trigger] chunk[i],
                    ) by {
                        assert(chunk[i] == q[base.len() + i]);
                    }
                } else {
                    assert(q.subrange(base.len() as int, q.len() as int) =~= q.subrange(
                        base.len() as int,
                        q.len() as int,
                    ));
                }
            }
        }
        self.seed = rng_gen_u16(&mut rng);
    }

    /// Shuffles every complete bag-sized block of the queue in place with
    /// the generator seeded from `seed`, then moves `seed` on. Queues
    /// shorter than seven and the random mode are left alone.
    pub fn shuffle_bag_ranges(&mut self, queue: &mut Vec<Tetromino>)
        ensures
            final(self).mode == old(self).mode,
            final(self).static_sequence@ == old(self).static_sequence@,
            final(queue)@.len() == old(queue)@.len(),
            old(queue)@.len() < 7 || old(self).mode == BagMode::Random ==> final(queue)@ == old(
                queue,
            )@ && final(self).seed == old(self).seed,
            ({
                let size: int = if old(self).mode == BagMode::SevenBag {
                    7
                } else {
                    14
                };
                let blocks = old(queue)@.len() as int / size;
                old(queue)@.len() >= 7 && old(self).mode != BagMode::Random ==> {
                    &&& forall|b: int|
                        0 <= b < blocks ==> (#[trigger] final(queue)@.subrange(
                            b * size,
                            b * size + size,
                        )).to_multiset() == old(queue)@.subrange(b * size, b * size + size).to_multiset()
                    &&& forall|i: int|
                        blocks * size <= i < old(queue)@.len() ==> #[trigger] final(queue)@[i]
                            == old(queue)@[i]
                }
            }),
    {
        if queue.len() < 7 {
            return;
        }
        let bag_size: usize = match self.mode {
            BagMode::SevenBag => 7,
            BagMode::FourteenBag => 14,
            BagMode::Random => {
                return;
            },
        };
        let mut rng = rng_from_seed(self.seed as u64);
        let n = queue.len();
        let mut start: usize = 0;
        let ghost mut b: int = 0;
        while bag_size <= n - start
            invariant
                n == queue@.len(),
                n == old(queue)@.len(),
                bag_size == 7 || bag_size == 14,
                bag_size == (if self.mode == BagMode::SevenBag {
                    7int
                } else {
                    14int
                }),
                self.mode == old(self).mode,
                self.mode != BagMode::Random,
                start == b * bag_size,
                0 <= b,
                start <= n,
                forall|c: int|
                    0 <= c < b ==> (#[trigger] queue@.subrange(
                        c * bag_size,
                        c * bag_size + bag_size,
                    )).to_multiset() == old(queue)@.subrange(
                        c * bag_size,
                        c * bag_size + bag_size,
                    ).to_multiset(),
                forall|i: int| start <= i < n ==> #[trigger] queue@[i] == old(queue)@[i],
            decreases n - start,
        {
            let end = start + bag_size;
            let ghost before = queue@;
            rng_shuffle_range(&mut rng, queue, start, end);
            proof {
                assert forall|c: int| 0 <= c < b + 1 implies (#[trigger] queue@.subrange(
                    c * bag_size,
                    c * bag_size + bag_size,
                )).to_multiset() == old(queue)@.subrange(
                    c * bag_size,
                    c * bag_size + bag_size,
                ).to_multiset() by {
                    if c < b {
                        assert(c * bag_size + bag_size <= b * bag_size) by (nonlinear_arith)
                            requires
                                c < b,
                                0 <= c,
                                bag_size >= 0,
                        ;
                        assert(0 <= c * bag_size) by (nonlinear_arith)
                            requires
                                0 <= c,
                                bag_size >= 0,
                        ;
                        assert(queue@.subrange(c * bag_size, c * bag_size + bag_size)
                            =~= before.subrange(c * bag_size, c * bag_size + bag_size));
                    } else {
                        assert(before.subrange(start as int, end as int) =~= old(queue)@.subrange(
                            start as int,
                            end as int,
                        ));
                    }
                }
                assert((b + 1) * bag_size == b * bag_size + bag_size) by (nonlinear_arith);
            }
            start = end;
            proof {
                b = b + 1;
            }
        }
        proof {
            let size = bag_size as int;
            vstd::arithmetic::div_mod::lemma_fundamental_div_mod(n as int, size);
            assert(b == n as int / size) by (nonlinear_arith)
                requires
                    start == b * size,
                    start <= n,
                    n < start + size,
                    size > 0,
                    n as int == size * (n as int / size) + n as int % size,
                    0 <= n as int % size < size,
            ;
        }
        self.seed = rng_gen_u16(&mut rng);
    }

    /// Replaces every queued piece by its mirror image.
    pub fn mirror_queue(&self, queue: &mut Vec<Tetromino>)
        ensures
            final(queue)@ == old(queue)@.map_values(|p: Tetromino| spec_mirrored_piece(p)),
    {
        let n = queue.len();
        let mut i: usize = 0;
        while i < n
            invariant
                n == queue@.len(),
                n == old(queue)@.len(),
                i <= n,
                forall|j: int| 0 <= j < i ==> queue@[j] == spec_mirrored_piece(old(queue)@[j]),
                forall|j: int| i <= j < n ==> queue@[j] == old(queue)@[j],
            decreases n - i,
        {
            let p = mirrored_piece(queue[i]);
            queue.set(i, p);
            i += 1;
        }
        assert(queue@ =~= old(queue)@.map_values(|p: Tetromino| spec_mirrored_piece(p)));
    }
}

} // verus!
