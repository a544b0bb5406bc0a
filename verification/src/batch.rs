//! The candidate source's batching logic: dictionary lines are grouped into
//! bounded batches, the unit of transfer and of progress reporting. A filled
//! batch is handed out only while cancellation has not been observed, and a
//! trailing partial batch is flushed at end of input rather than dropped.

use vstd::prelude::*;

use crate::scan::candidate_views;

verus! {

/// The views of a sequence of batches.
pub open spec fn batch_views(batches: Seq<Vec<String>>) -> Seq<Seq<Seq<char>>> {
    batches.map_values(|b: Vec<String>| candidate_views(b@))
}

/// Mapping candidate strings to their views commutes with appending one.
pub proof fn lemma_candidate_views_push(lines: Seq<String>, line: String)
    ensures
        candidate_views(lines.push(line)) == candidate_views(lines).push(line@),
{
    assert(candidate_views(lines.push(line)) =~= candidate_views(lines).push(line@));
}

/// Mapping candidate strings to their views commutes with taking a prefix.
pub proof fn lemma_candidate_views_take(lines: Seq<String>, n: int)
    requires
        0 <= n <= lines.len(),
    ensures
        candidate_views(lines.take(n)) == candidate_views(lines).take(n),
{
    assert(candidate_views(lines.take(n)) =~= candidate_views(lines).take(n));
}

/// What the candidate source does with one more dictionary line.
pub enum SourceStep {
    /// The line was buffered; no batch is full yet.
    Accepted,
    /// The line filled a batch, which is handed out for publication.
    Publish(Vec<String>),
    /// The line filled a batch while cancellation was observed: the batch is
    /// discarded and the source stops.
    Halted,
}

/// Accumulates dictionary lines into batches of a configured capacity.
pub struct Batcher {
    buf: Vec<String>,
    cap: usize,
}

impl Batcher {
    /// The candidates currently buffered, oldest first.
    pub closed spec fn buffered(self) -> Seq<Seq<char>> {
        candidate_views(self.buf@)
    }

    /// The configured batch capacity.
    pub closed spec fn capacity(self) -> int {
        self.cap as int
    }

    /// A batcher is well formed while its buffer is strictly under capacity.
    pub open spec fn wf(self) -> bool {
        1 <= self.capacity() && self.buffered().len() < self.capacity()
    }

    /// Builds an empty batcher for batches of `batch_size` candidates.
    pub fn new(batch_size: usize) -> (b: Batcher)
        requires
            batch_size >= 1,
        ensures
            b.wf(),
            b.capacity() == batch_size,
            b.buffered() == Seq::<Seq<char>>::empty(),
    {
        let b = Batcher { buf: Vec::new(), cap: batch_size };
        proof {
            assert(b.buffered() =~= Seq::<Seq<char>>::empty());
        }
        b
    }

    /// Takes one more dictionary line. A line that fills a batch hands the
    /// batch out, unless cancellation was observed, in which case the batch
    /// is discarded and the source halts: after cancellation nothing is ever
    /// published.
    pub fn offer(&mut self, line: String, cancelled: bool) -> (step: SourceStep)
        requires
            old(self).wf(),
        ensures
            final(self).wf(),
            final(self).capacity() == old(self).capacity(),
            match step {
                SourceStep::Accepted => {
                    &&& old(self).buffered().len() + 1 < old(self).capacity()
                    &&& final(self).buffered() == old(self).buffered().push(line@)
                },
                SourceStep::Publish(batch) => {
                    &&& !cancelled
                    &&& old(self).buffered().len() + 1 == old(self).capacity()
                    &&& candidate_views(batch@) == old(self).buffered().push(line@)
                    &&& final(self).buffered() == Seq::<Seq<char>>::empty()
                },
                SourceStep::Halted => {
                    &&& cancelled
                    &&& old(self).buffered().len() + 1 == old(self).capacity()
                    &&& final(self).buffered() == Seq::<Seq<char>>::empty()
                },
            },
    {
        proof {
            lemma_candidate_views_push(self.buf@, line);
        }
        self.buf.push(line);
        if self.buf.len() == self.cap {
            let mut full: Vec<String> = Vec::new();
            core::mem::swap(&mut full, &mut self.buf);
            proof {
                assert(self.buffered() =~= Seq::<Seq<char>>::empty());
            }
            if cancelled {
                SourceStep::Halted
            } else {
                SourceStep::Publish(full)
            }
        } else {
            SourceStep::Accepted
        }
    }

    /// Hands out the trailing partial batch at end of input, so that a
    /// dictionary whose length the batch size does not divide loses no
    /// candidates.
    pub fn flush(&mut self) -> (tail: Option<Vec<String>>)
        requires
            old(self).wf(),
        ensures
            final(self).wf(),
            final(self).capacity() == old(self).capacity(),
            final(self).buffered() == Seq::<Seq<char>>::empty(),
            match tail {
                Some(batch) => {
                    &&& candidate_views(batch@) == old(self).buffered()
                    &&& 0 < batch@.len() < old(self).capacity()
                },
                None => old(self).buffered().len() == 0,
            },
    {
        if self.buf.len() == 0 {
            proof {
                assert(self.buffered() =~= Seq::<Seq<char>>::empty());
            }
            None
        } else {
            let mut tail: Vec<String> = Vec::new();
            core::mem::swap(&mut tail, &mut self.buf);
            proof {
                assert(self.buffered() =~= Seq::<Seq<char>>::empty());
            }
            Some(tail)
        }
    }
}

/// Groups all dictionary lines into batches of `batch_size` candidates, the
/// last batch alone allowed to be smaller. Together the batches hold exactly
/// the dictionary's candidates, in dictionary order.
pub fn make_batches(lines: &Vec<String>, batch_size: usize) -> (batches: Vec<Vec<String>>)
    requires
        batch_size >= 1,
    ensures
        batch_views(batches@).flatten() == candidate_views(lines@),
        forall|i: int| 0 <= i < batches@.len() ==> 0 < #[trigger] batches@[i]@.len() <= batch_size,
        forall|i: int|
            0 <= i < batches@.len() - 1 ==> #[trigger] batches@[i]@.len() == batch_size,
{
    let mut batcher = Batcher::new(batch_size);
    let mut batches: Vec<Vec<String>> = Vec::new();
    let mut i: usize = 0;
    proof {
        assert(batch_views(batches@) =~= Seq::<Seq<Seq<char>>>::empty());
        assert(batch_views(batches@).flatten() + batcher.buffered() =~= candidate_views(
            lines@.take(0),
        ));
    }
    while i < lines.len()
        invariant
            i <= lines.len(),
            batch_size >= 1,
            batcher.wf(),
            batcher.capacity() == batch_size,
            batch_views(batches@).flatten() + batcher.buffered() == candidate_views(
                lines@.take(i as int),
            ),
            forall|k: int| 0 <= k < batches@.len() ==> #[trigger] batches@[k]@.len() == batch_size,
        decreases lines.len() - i,
    {
        let ghost prev_flat = batch_views(batches@).flatten();
        let ghost prev_buf = batcher.buffered();
        let line = lines[i].clone();
        match batcher.offer(line, false) {
            SourceStep::Accepted => {},
            SourceStep::Publish(b) => {
                proof {
                    lemma_batch_views_push(batches@, b);
                    batch_views(batches@).lemma_flatten_push(candidate_views(b@));
                }
                batches.push(b);
            },
            SourceStep::Halted => {
                proof {
                    assert(false);
                }
            },
        }
        proof {
            lemma_candidate_views_take(lines@, i as int);
            lemma_candidate_views_take(lines@, i + 1);
            assert(candidate_views(lines@).take(i + 1) =~= candidate_views(lines@).take(
                i as int,
            ).push(lines@[i as int]@));
            assert(batch_views(batches@).flatten() + batcher.buffered() =~= candidate_views(
                lines@.take(i + 1),
            ));
        }
        i += 1;
    }
    let ghost full_part = batches@;
    match batcher.flush() {
        Some(tail) => {
            proof {
                lemma_batch_views_push(batches@, tail);
                batch_views(batches@).lemma_flatten_push(candidate_views(tail@));
            }
            batches.push(tail);
        },
        None => {},
    }
    proof {
        assert(lines@.take(lines@.len() as int) =~= lines@);
        assert(batch_views(batches@).flatten() =~= candidate_views(lines@));
    }
    batches
}

/// Mapping batches to their views commutes with appending one.
proof fn lemma_batch_views_push(batches: Seq<Vec<String>>, b: Vec<String>)
    ensures
        batch_views(batches.push(b)) == batch_views(batches).push(candidate_views(b@)),
{
    assert(batch_views(batches.push(b)) =~= batch_views(batches).push(candidate_views(b@)));
}

} // verus!
