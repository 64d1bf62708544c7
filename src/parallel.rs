//! The parallel driver: blocks in, inscriptions out, in block and
//! transaction order.
use vstd::prelude::*;
use rayon::iter::{IntoParallelRefIterator, IndexedParallelIterator, ParallelIterator};
use rayon::slice::ParallelSlice;
use crate::inscription::{Inscription, InscriptionView};
use crate::parser::{inscription_view, transaction_inscription, InscriptionParser};
use crate::tx::{Block, Transaction};

verus! {

#[verifier::external_type_specification]
#[verifier::external_body]
pub struct ExThreadPool(rayon::ThreadPool);

#[verifier::external_type_specification]
#[verifier::external_body]
pub struct ExThreadPoolBuildError(rayon::ThreadPoolBuildError);

/// The inscriptions of a sequence of transactions, in transaction order.
pub open spec fn inscriptions_of(txs: Seq<Transaction>) -> Seq<InscriptionView>
    decreases txs.len(),
{
    if txs.len() == 0 {
        Seq::empty()
    } else {
        let front = inscriptions_of(txs.drop_last());
        match transaction_inscription(txs.last()) {
            Some(found) => front.push(found),
            None => front,
        }
    }
}

/// The transactions of a sequence of blocks, block after block.
pub open spec fn block_transactions(blocks: Seq<Block>) -> Seq<Transaction>
    decreases blocks.len(),
{
    if blocks.len() == 0 {
        Seq::empty()
    } else {
        block_transactions(blocks.drop_last()) + blocks.last().txdata@
    }
}

/// Consecutive pieces of `s` of `size` items each, the last one possibly shorter.
pub open spec fn chunks(s: Seq<Block>, size: nat) -> Seq<Seq<Block>>
    decreases s.len(),
{
    if s.len() == 0 || size == 0 {
        Seq::empty()
    } else if s.len() <= size {
        seq![s]
    } else {
        seq![s.take(size as int)] + chunks(s.skip(size as int), size)
    }
}

pub open spec fn views(v: Seq<Inscription>) -> Seq<InscriptionView> {
    v.map_values(|i: Inscription| i@)
}

pub proof fn lemma_inscriptions_of_append(a: Seq<Transaction>, b: Seq<Transaction>)
    ensures
        inscriptions_of(a + b) == inscriptions_of(a) + inscriptions_of(b),
    decreases b.len(),
{
    if b.len() == 0 {
        assert(a + b =~= a);
        assert(inscriptions_of(a) + inscriptions_of(b) =~= inscriptions_of(a));
    } else {
        assert((a + b).drop_last() =~= a + b.drop_last());
        lemma_inscriptions_of_append(a, b.drop_last());
        match transaction_inscription(b.last()) {
            Some(found) => {
                assert(inscriptions_of(a) + inscriptions_of(b) =~= (inscriptions_of(a) + inscriptions_of(b.drop_last())).push(found));
            },
            None => {},
        }
    }
}

pub proof fn lemma_block_transactions_append(a: Seq<Block>, b: Seq<Block>)
    ensures
        block_transactions(a + b) == block_transactions(a) + block_transactions(b),
    decreases b.len(),
{
    if b.len() == 0 {
        assert(a + b =~= a);
        assert(block_transactions(a) + block_transactions(b) =~= block_transactions(a));
    } else {
        assert((a + b).drop_last() =~= a + b.drop_last());
        lemma_block_transactions_append(a, b.drop_last());
        assert(block_transactions(a) + block_transactions(b)
            =~= block_transactions(a) + block_transactions(b.drop_last()) + b.last().txdata@);
    }
}

pub proof fn lemma_chunks_flatten(s: Seq<Block>, size: nat)
    requires
        size > 0,
    ensures
        chunks(s, size).flatten() == s,
    decreases s.len(),
{
    if s.len() == 0 {
    } else if s.len() <= size {
        seq![s].lemma_flatten_one_element();
    } else {
        lemma_chunks_flatten(s.skip(size as int), size);
        let cs = chunks(s, size);
        assert(cs.drop_first() =~= chunks(s.skip(size as int), size));
        assert(s.take(size as int) + s.skip(size as int) =~= s);
    }
}

/// `a` stands in `b` at the strictly increasing positions `idx`.
pub open spec fn is_embedding<A>(idx: Seq<int>, a: Seq<A>, b: Seq<A>) -> bool {
    &&& idx.len() == a.len()
    &&& forall|i: int, j: int| 0 <= i < j < idx.len() ==> idx[i] < idx[j]
    &&& forall|i: int| 0 <= i < idx.len() ==> 0 <= #[trigger] idx[i] < b.len() && a[i] == b[idx[i]]
}

/// `a` is `b` with some items left out.
pub open spec fn is_subsequence<A>(a: Seq<A>, b: Seq<A>) -> bool {
    exists|idx: Seq<int>| is_embedding(idx, a, b)
}

pub open spec fn inscription_txids(v: Seq<InscriptionView>) -> Seq<Seq<char>> {
    v.map_values(|i: InscriptionView| i.txid)
}

pub open spec fn transaction_txids(v: Seq<Transaction>) -> Seq<Seq<char>> {
    v.map_values(|t: Transaction| t.txid@)
}

proof fn lemma_inscriptions_embed(txs: Seq<Transaction>) -> (idx: Seq<int>)
    ensures
        is_embedding(idx, inscription_txids(inscriptions_of(txs)), transaction_txids(txs)),
    decreases txs.len(),
{
    if txs.len() == 0 {
        Seq::empty()
    } else {
        let front = txs.drop_last();
        let idx0 = lemma_inscriptions_embed(front);
        let a0 = inscription_txids(inscriptions_of(front));
        let b = transaction_txids(txs);
        assert(transaction_txids(front) =~= b.drop_last());
        match transaction_inscription(txs.last()) {
            Some(found) => {
                let idx = idx0.push(txs.len() - 1);
                let a = inscription_txids(inscriptions_of(txs));
                assert(a =~= a0.push(found.txid));
                assert(is_embedding(idx, a, b));
                idx
            },
            None => {
                assert(is_embedding(idx0, inscription_txids(inscriptions_of(txs)), b));
                idx0
            },
        }
    }
}

/// The identifiers of the inscriptions that `process_blocks` returns for a
/// batch of blocks are a subsequence of the identifiers of the batch's
/// transactions, taken block after block and in order within each block.
pub proof fn lemma_process_blocks_order(blocks: Seq<Block>)
    ensures
        is_subsequence(
            inscription_txids(inscriptions_of(block_transactions(blocks))),
            transaction_txids(block_transactions(blocks)),
        ),
{
    let idx = lemma_inscriptions_embed(block_transactions(blocks));
}

/// Relies on num_cpus::get_physical: the number of physical cores, which
/// depends on the machine.
#[verifier::external_body]
fn physical_cores() -> (r: usize) {
    num_cpus::get_physical()
}

/// Relies on rayon's ThreadPoolBuilder::build: a pool of `threads` workers,
/// or the error that building it met.
#[verifier::external_body]
fn build_pool(threads: usize) -> (r: Result<rayon::ThreadPool, rayon::ThreadPoolBuildError>) {
    rayon::ThreadPoolBuilder::new().num_threads(threads).build()
}

/// Relies on rayon: `par_iter().map(f).collect()` holds `f` of each item,
/// in the order of the items.
#[verifier::external_body]
fn parse_in_parallel(parser: &InscriptionParser, txs: &[Transaction]) -> (r: Vec<Option<Inscription>>)
    ensures
        r@.len() == txs@.len(),
        forall|i: int| 0 <= i < txs@.len() ==> inscription_view(#[trigger] r@[i]) == transaction_inscription(txs@[i]),
{
    txs.par_iter().map(|tx| parser.parse_transaction(tx)).collect()
}

/// Relies on rayon: `install` runs the work on `pool` and returns its result;
/// `par_chunks(size)` yields the pieces that `chunks` describes, and `map`
/// followed by `collect` keeps their order.
#[verifier::external_body]
fn process_chunks_on(pool: &rayon::ThreadPool, driver: &ParallelParser, blocks: &[Block], size: usize) -> (r: Vec<Vec<Inscription>>)
    requires
        size > 0,
    ensures
        r@.len() == chunks(blocks@, size as nat).len(),
        forall|i: int| 0 <= i < r@.len() ==> views((#[trigger] r@[i])@) == inscriptions_of(block_transactions(chunks(blocks@, size as nat)[i])),
{
    pool.install(|| blocks.par_chunks(size).map(|chunk| driver.process_chunk(chunk)).collect())
}

/// Runs the inscription parser over batches of blocks on a pool of worker
/// threads, one per physical core.
pub struct ParallelParser {
    parser: InscriptionParser,
    batch_size: usize,
    thread_count: usize,
    pool: rayon::ThreadPool,
}

impl ParallelParser {
    #[verifier::type_invariant]
    spec fn batch_size_positive(&self) -> bool {
        self.batch_size > 0
    }

    pub closed spec fn spec_batch_size(&self) -> usize {
        self.batch_size
    }

    /// A driver that splits its input into chunks of `batch_size` blocks,
    /// with a pool of one worker per physical core; or the error met while
    /// starting the pool.
    pub fn new(batch_size: usize) -> (r: Result<Self, rayon::ThreadPoolBuildError>)
        requires
            batch_size > 0,
        ensures
            r.is_ok() ==> r.unwrap().spec_batch_size() == batch_size,
    {
        let thread_count = physical_cores();
        match build_pool(thread_count) {
            Ok(pool) => Ok(ParallelParser { parser: InscriptionParser::new(), batch_size, thread_count, pool }),
            Err(e) => Err(e),
        }
    }

    pub fn batch_size(&self) -> (r: usize)
        ensures
            r == self.spec_batch_size(),
            r > 0,
    {
        proof {
            use_type_invariant(self);
        }
        self.batch_size
    }

    /// The number of worker threads, which is the number of physical cores.
    pub fn thread_count(&self) -> usize {
        self.thread_count
    }

    /// Every inscription in `blocks`, in block order and, within a block, in
    /// transaction order.
    pub fn process_blocks(&self, blocks: Vec<Block>) -> (r: Vec<Inscription>)
        ensures
            views(r@) == inscriptions_of(block_transactions(blocks@)),
    {
        proof {
            use_type_invariant(self);
        }
        let mut per_chunk = process_chunks_on(&self.pool, self, blocks.as_slice(), self.batch_size);
        let ghost cs = chunks(blocks@, self.batch_size as nat);
        let mut out: Vec<Inscription> = Vec::new();
        let mut k: usize = 0;
        let n = per_chunk.len();
        proof {
            assert(cs.take(0) =~= Seq::<Seq<Block>>::empty());
            assert(views(out@) =~= Seq::<InscriptionView>::empty());
        }
        while k < n
            invariant
                n == cs.len(),
                k <= n,
                per_chunk@.len() == n,
                forall|i: int| k <= i < n ==> views((#[trigger] per_chunk@[i])@) == inscriptions_of(block_transactions(cs[i])),
                views(out@) == inscriptions_of(block_transactions(cs.take(k as int).flatten())),
            decreases n - k,
        {
            let mut part: Vec<Inscription> = Vec::new();
            std::mem::swap(&mut part, &mut per_chunk[k]);
            proof {
                let front = cs.take(k as int).flatten();
                assert(cs.take(k + 1) =~= cs.take(k as int).push(cs[k as int]));
                cs.take(k as int).lemma_flatten_push(cs[k as int]);
                lemma_block_transactions_append(front, cs[k as int]);
                lemma_inscriptions_of_append(block_transactions(front), block_transactions(cs[k as int]));
                assert(views(out@ + part@) =~= views(out@) + views(part@));
            }
            out.append(&mut part);
            k = k + 1;
        }
        proof {
            assert(cs.take(n as int) =~= cs);
            lemma_chunks_flatten(blocks@, self.batch_size as nat);
        }
        out
    }

    /// The inscriptions of a chunk of blocks, in order.
    pub fn process_chunk(&self, chunk: &[Block]) -> (r: Vec<Inscription>)
        ensures
            views(r@) == inscriptions_of(block_transactions(chunk@)),
    {
        let mut out: Vec<Inscription> = Vec::new();
        let mut i: usize = 0;
        assert(chunk@.take(0) =~= Seq::<Block>::empty());
        assert(views(out@) =~= Seq::<InscriptionView>::empty());
        while i < chunk.len()
            invariant
                i <= chunk@.len(),
                views(out@) == inscriptions_of(block_transactions(chunk@.take(i as int))),
            decreases chunk@.len() - i,
        {
            let mut found = self.process_block(&chunk[i]);
            proof {
                assert(chunk@.take(i + 1).drop_last() =~= chunk@.take(i as int));
                lemma_inscriptions_of_append(block_transactions(chunk@.take(i as int)), chunk@[i as int].txdata@);
                assert(views(out@ + found@) =~= views(out@) + views(found@));
            }
            out.append(&mut found);
            i = i + 1;
        }
        assert(chunk@.take(chunk@.len() as int) =~= chunk@);
        out
    }

    /// The inscriptions of one block, in transaction order.
    pub fn process_block(&self, block: &Block) -> (r: Vec<Inscription>)
        ensures
            views(r@) == inscriptions_of(block.txdata@),
    {
        let mut results = parse_in_parallel(&self.parser, block.txdata.as_slice());
        let mut out: Vec<Inscription> = Vec::new();
        let ghost txs = block.txdata@;
        let n = results.len();
        let mut i: usize = 0;
        assert(txs.take(0) =~= Seq::<Transaction>::empty());
        assert(views(out@) =~= Seq::<InscriptionView>::empty());
        while i < n
            invariant
                n == txs.len(),
                i <= n,
                results@.len() == n,
                forall|j: int| i <= j < n ==> inscription_view(#[trigger] results@[j]) == transaction_inscription(txs[j]),
                views(out@) == inscriptions_of(txs.take(i as int)),
            decreases n - i,
        {
            let mut slot: Option<Inscription> = None;
            std::mem::swap(&mut slot, &mut results[i]);
            assert(txs.take(i + 1).drop_last() =~= txs.take(i as int));
            match slot {
                Some(found) => {
                    assert(views(out@.push(found)) =~= views(out@).push(found@));
                    out.push(found);
                },
                None => {},
            }
            i = i + 1;
        }
        assert(txs.take(n as int) =~= txs);
        out
    }
}

} // verus!
