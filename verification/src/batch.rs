//! Batch jobs: a reader, an optional filter, a processor and a writer that
//! take the items in chunks.
use vstd::prelude::*;
use crate::dict::Dict;
use crate::batch::error::{JobProcessFailed, JobReadFailed, JobRuntimeError, JobWriteFailed};

pub mod error;
pub mod book;
pub mod series;

verus! {

/// The named parameters of a job.
pub type JobParameter = Dict<String>;

/// Reads the items a job works on.
pub trait Reader<T> {
    /// Whether `out` is an answer the reader may give to `params`.
    closed spec fn reads(&self, params: Map<Seq<char>, String>, out: Result<Seq<T>, JobReadFailed>) -> bool {
        true
    }

    fn do_read(&self, params: &JobParameter) -> (r: Result<Vec<T>, JobReadFailed>)
        ensures
            self.reads(params@, match r {
                Ok(v) => Ok(v@),
                Err(e) => Err(e),
            });
}

/// Keeps the items that are valid.
pub trait Filter<T> {
    /// Whether `out` is what the filter may keep of `items`.
    closed spec fn filters(&self, items: Seq<T>, out: Seq<T>) -> bool {
        true
    }

    fn do_filter(&self, items: Vec<T>) -> (r: Vec<T>)
        ensures
            self.filters(items@, r@);
}

/// Whether applying `fs` in order to `items` may give `out`: there are
/// intermediate results, each what the next filter may keep of the one
/// before.
pub open spec fn chain_filters<T>(fs: Seq<Box<dyn Filter<T>>>, items: Seq<T>, out: Seq<T>) -> bool {
    exists|mids: Seq<Seq<T>>| #[trigger] steps(fs, mids, items, out)
}

/// `mids` lists the results of applying `fs` in order, from `items` to `out`.
pub open spec fn steps<T>(fs: Seq<Box<dyn Filter<T>>>, mids: Seq<Seq<T>>, items: Seq<T>, out: Seq<T>) -> bool {
    &&& mids.len() == fs.len() + 1
    &&& mids[0] == items
    &&& mids[fs.len() as int] == out
    &&& forall|i: int| 0 <= i < fs.len() ==> #[trigger] fs[i].filters(mids[i], mids[i + 1])
}

/// Filters that run one after the other, each on what the one before kept;
/// with no filter the items pass unchanged.
#[verifier::reject_recursive_types(T)]
pub struct FilterChain<T> {
    pub filters: Vec<Box<dyn Filter<T>>>,
}

impl<T> FilterChain<T> {
    pub fn new() -> (r: Self)
        ensures
            r.filters@.len() == 0,
    {
        FilterChain { filters: Vec::new() }
    }

    /// The chain with `filter` run last.
    pub fn add_filter(self, filter: Box<dyn Filter<T>>) -> (r: Self)
        ensures
            r.filters@ == self.filters@.push(filter),
            r.filters@.len() == self.filters@.len() + 1,
    {
        let mut filters = self.filters;
        filters.push(filter);
        proof {
            vstd::seq::axiom_seq_push_len(self.filters@, filter);
        }
        FilterChain { filters }
    }
}

impl<T> Filter<T> for FilterChain<T> {
    open spec fn filters(&self, items: Seq<T>, out: Seq<T>) -> bool {
        chain_filters(self.filters@, items, out)
    }

    fn do_filter(&self, items: Vec<T>) -> (r: Vec<T>) {
        let n = self.filters.len();
        let mut acc = items;
        let mut i: usize = 0;
        let ghost mut mids: Seq<Seq<T>> = seq![items@];
        while i < n
            invariant
                n == self.filters@.len(),
                i <= n,
                mids.len() == i + 1,
                mids[0] == items@,
                mids[i as int] == acc@,
                forall|j: int| 0 <= j < i ==> #[trigger] self.filters@[j].filters(mids[j], mids[j + 1]),
            decreases n - i,
        {
            let f = &self.filters[i];
            let next = f.do_filter(acc);
            proof {
                mids = mids.push(next@);
            }
            acc = next;
            i = i + 1;
        }
        assert(steps(self.filters@, mids, items@, acc@));
        acc
    }
}

/// Turns an item into another.
pub trait Processor<I, O> {
    /// Whether `out` is a result that processing `item` may give.
    closed spec fn processes(&self, item: I, out: Result<O, JobProcessFailed<I>>) -> bool {
        true
    }

    fn do_process(&self, item: I) -> (r: Result<O, JobProcessFailed<I>>)
        ensures
            self.processes(item, r);
}

/// Two processors run one after the other: what the first gives is what
/// the second takes. A failure of the second comes back with its message
/// and without an item.
#[verifier::reject_recursive_types(I)]
#[verifier::reject_recursive_types(O)]
#[verifier::reject_recursive_types(R)]
pub struct ProcessorChain<I, O, R> {
    pub first: Box<dyn Processor<I, O>>,
    pub second: Box<dyn Processor<O, R>>,
}

impl<I, O, R> ProcessorChain<I, O, R> {
    pub fn new(first: Box<dyn Processor<I, O>>, second: Box<dyn Processor<O, R>>) -> (r: Self)
        ensures
            r == (ProcessorChain { first, second }),
    {
        ProcessorChain { first, second }
    }
}

impl<I, O, R> Processor<I, R> for ProcessorChain<I, O, R> {
    open spec fn processes(&self, item: I, out: Result<R, JobProcessFailed<I>>) -> bool {
        match out {
            Ok(o) => exists|m: O| #[trigger] self.first.processes(item, Ok(m)) && self.second.processes(m, Ok(o)),
            Err(e) => self.first.processes(item, Err(e)) || (e.item is None && exists|m: O, e2: JobProcessFailed<O>|
                #[trigger] self.first.processes(item, Ok(m)) && #[trigger] self.second.processes(m, Err(e2))
                    && e.message == e2.message),
        }
    }

    fn do_process(&self, item: I) -> (r: Result<R, JobProcessFailed<I>>) {
        let first = match self.first.do_process(item) {
            Ok(m) => m,
            Err(e) => return Err(e),
        };
        let ghost m = first;
        match self.second.do_process(first) {
            Ok(o) => Ok(o),
            Err(e) => {
                let ghost e2 = e;
                let r = JobProcessFailed::new_empty(e.message);
                assert(self.first.processes(item, Ok(m)) && self.second.processes(m, Err(e2)));
                Err(r)
            },
        }
    }
}

/// A processor that hands each item back unchanged.
pub struct PhantomProcessor<I> {
    _phantom: core::marker::PhantomData<I>,
}

impl<I> PhantomProcessor<I> {
    pub fn new() -> (r: Self) {
        PhantomProcessor { _phantom: core::marker::PhantomData }
    }
}

impl<I> Processor<I, I> for PhantomProcessor<I> {
    open spec fn processes(&self, item: I, out: Result<I, JobProcessFailed<I>>) -> bool {
        out == Ok::<I, JobProcessFailed<I>>(item)
    }

    fn do_process(&self, item: I) -> (r: Result<I, JobProcessFailed<I>>) {
        Ok(item)
    }
}

/// Stores the items a job has made. Each call is its own transaction.
pub trait Writer<T> {
    /// Whether `out` is a result that writing `items` may give.
    closed spec fn writes(&self, items: Seq<T>, out: Result<(), JobWriteFailed<T>>) -> bool {
        true
    }

    fn do_write(&self, items: Vec<T>) -> (r: Result<(), JobWriteFailed<T>>)
        ensures
            self.writes(items@, r);
}

/// The sequences of `cs` one after the other.
pub open spec fn concat<T>(cs: Seq<Seq<T>>) -> Seq<T>
    decreases cs.len(),
{
    if cs.len() == 0 {
        Seq::empty()
    } else {
        concat(cs.drop_last()) + cs.last()
    }
}

/// The views of a vector of vectors.
pub open spec fn views<T>(cs: Seq<Vec<T>>) -> Seq<Seq<T>> {
    cs.map_values(|c: Vec<T>| c@)
}

/// `cs` cuts `s` into pieces of `size`, in order, the last one holding
/// what is left (at least one item).
pub open spec fn is_chunking<T>(cs: Seq<Seq<T>>, s: Seq<T>, size: int) -> bool {
    &&& concat(cs) == s
    &&& forall|i: int| 0 <= i < cs.len() ==> 0 < #[trigger] cs[i].len() <= size
    &&& forall|i: int| 0 <= i < cs.len() - 1 ==> #[trigger] cs[i].len() == size
}

/// Splits `vec` into chunks of `size` items, in order; the last chunk holds
/// what is left. Each chunk owns its items.
pub fn chunk_with_owned<T>(vec: Vec<T>, size: usize) -> (r: Vec<Vec<T>>)
    requires
        size > 0,
    ensures
        is_chunking(views(r@), vec@, size as int),
{
    let mut rest = vec;
    let mut chunks: Vec<Vec<T>> = Vec::new();
    proof {
        assert(views(chunks@) =~= Seq::<Seq<T>>::empty());
        assert(concat(views(chunks@)) + rest@ =~= vec@);
    }
    while rest.len() > 0
        invariant
            size > 0,
            concat(views(chunks@)) + rest@ == vec@,
            forall|i: int| 0 <= i < chunks@.len() ==> 0 < #[trigger] chunks@[i]@.len() <= size,
            forall|i: int| 0 <= i < chunks@.len() - 1 ==> #[trigger] chunks@[i]@.len() == size,
            chunks@.len() > 0 && chunks@.last()@.len() < size ==> rest@.len() == 0,
        decreases rest@.len(),
    {
        let take = if size < rest.len() { size } else { rest.len() };
        let tail = rest.split_off(take);
        let ghost cs0 = chunks@;
        let ghost piece = rest@;
        chunks.push(rest);
        rest = tail;
        proof {
            assert(views(chunks@) =~= views(cs0).push(piece));
            assert(views(chunks@).drop_last() =~= views(cs0));
            assert(concat(views(chunks@)) == concat(views(cs0)) + piece);
            assert(concat(views(chunks@)) + rest@ =~= concat(views(cs0)) + (piece + rest@));
        }
    }
    proof {
        let cs = views(chunks@);
        assert(concat(cs) + rest@ =~= concat(cs));
        assert forall|i: int| 0 <= i < cs.len() implies 0 < #[trigger] cs[i].len() <= size by {
            assert(cs[i] == chunks@[i]@);
        }
        assert forall|i: int| 0 <= i < cs.len() - 1 implies #[trigger] cs[i].len() == size by {
            assert(cs[i] == chunks@[i]@);
        }
    }
    chunks
}

/// What a job keeps of what it read: what its filter may keep, or all of
/// it when it has none.
pub open spec fn kept_by<I>(f: Option<Box<dyn Filter<I>>>, read: Seq<I>, kept: Seq<I>) -> bool {
    match f {
        Some(f) => f.filters(read, kept),
        None => kept == read,
    }
}

/// The default number of items in a chunk.
pub const DEF_CHUNK_SIZE: usize = 500;

/// A batch job: it reads items, filters them when it has a filter, and
/// processes and writes them chunk by chunk, stopping at the first failure.
#[verifier::reject_recursive_types(I)]
#[verifier::reject_recursive_types(O)]
pub struct Job<I, O> {
    pub reader: Box<dyn Reader<I>>,
    pub filter: Option<Box<dyn Filter<I>>>,
    pub processor: Box<dyn Processor<I, O>>,
    pub writer: Box<dyn Writer<O>>,
    /// The number of items processed and written together; a job runs only
    /// with one of at least 1.
    pub chunk_size: usize,
}

impl<I, O> Job<I, O> {
    /// `outs` are what processing each of `items` may give, in order.
    pub open spec fn processed_all(&self, items: Seq<I>, outs: Seq<O>) -> bool {
        &&& outs.len() == items.len()
        &&& forall|i: int| 0 <= i < items.len() ==> #[trigger] self.processor.processes(items[i], Ok(outs[i]))
    }

    /// Whether processing `items` and writing the results may succeed.
    pub open spec fn task_ok(&self, items: Seq<I>) -> bool {
        exists|outs: Seq<O>, res: Result<(), JobWriteFailed<O>>|
            #[trigger] self.processed_all(items, outs) && #[trigger] self.writer.writes(outs, res) && res is Ok
    }

    /// Whether processing and writing `items` may fail with `e`: an item
    /// fails after the ones before it were processed (and nothing is
    /// written), or every item is processed and writing the results fails.
    pub open spec fn task_fails(&self, items: Seq<I>, e: JobRuntimeError<I, O>) -> bool {
        match e {
            JobRuntimeError::ReadFailed(_) => false,
            JobRuntimeError::ProcessFailed(pe) => exists|k: int, outs: Seq<O>|
                #![trigger self.processed_all(items.take(k), outs), self.processor.processes(items[k], Err(pe))]
                0 <= k < items.len() && self.processed_all(items.take(k), outs)
                    && self.processor.processes(items[k], Err(pe)),
            JobRuntimeError::WriteFailed(we) => exists|outs: Seq<O>|
                #[trigger] self.processed_all(items, outs) && self.writer.writes(outs, Err(we)),
        }
    }

    /// Whether a run with `params` may stop with `e` after reading: the
    /// items read and kept fall into chunks, every chunk before chunk `j`
    /// was processed and written, and chunk `j` failed with `e`; the chunks
    /// after it are not run.
    pub open spec fn stops_with(&self, params: Map<Seq<char>, String>, e: JobRuntimeError<I, O>) -> bool {
        exists|read: Seq<I>, kept: Seq<I>, cs: Seq<Seq<I>>, j: int|
            #![trigger self.reader.reads(params, Ok(read)), kept_by(self.filter, read, kept), is_chunking(cs, kept, self.chunk_size as int), self.task_fails(cs[j], e)]
            self.reader.reads(params, Ok(read)) && kept_by(self.filter, read, kept)
                && is_chunking(cs, kept, self.chunk_size as int)
                && 0 <= j < cs.len()
                && (forall|k: int| 0 <= k < j ==> #[trigger] self.task_ok(cs[k]))
                && self.task_fails(cs[j], e)
    }

    pub fn set_chunk_size(self, size: usize) -> (r: Job<I, O>)
        ensures
            r.chunk_size == size,
    {
        Job { chunk_size: size, ..self }
    }

    /// Runs the job with `params`.
    pub fn run(&self, params: &JobParameter) -> (r: Result<(), JobRuntimeError<I, O>>)
        requires
            self.chunk_size > 0,
        ensures
            r matches Err(JobRuntimeError::ReadFailed(e)) ==> self.reader.reads(params@, Err(e)),
            r matches Err(e) ==> (e is ReadFailed || self.stops_with(params@, e)),
            r is Ok ==> exists|read: Seq<I>, kept: Seq<I>, cs: Seq<Seq<I>>|
                #![trigger self.reader.reads(params@, Ok(read)), kept_by(self.filter, read, kept), is_chunking(cs, kept, self.chunk_size as int)]
                self.reader.reads(params@, Ok(read)) && kept_by(self.filter, read, kept)
                    && is_chunking(cs, kept, self.chunk_size as int)
                    && forall|j: int| 0 <= j < cs.len() ==> #[trigger] self.task_ok(cs[j]),
    {
        let items = match self.reader.do_read(params) {
            Ok(v) => v,
            Err(e) => return Err(JobRuntimeError::ReadFailed(e)),
        };
        let ghost read = items@;
        let items = match &self.filter {
            Some(f) => f.do_filter(items),
            None => items,
        };
        let ghost kept = items@;
        let mut chunks = chunk_with_owned(items, self.chunk_size);
        let ghost cs = views(chunks@);
        let n = chunks.len();
        let mut k: usize = 0;
        while chunks.len() > 0
            invariant
                n == cs.len(),
                k + chunks@.len() == n,
                views(chunks@) == cs.subrange(k as int, n as int),
                forall|j: int| 0 <= j < k ==> #[trigger] self.task_ok(cs[j]),
                self.reader.reads(params@, Ok(read)),
                kept_by(self.filter, read, kept),
                is_chunking(cs, kept, self.chunk_size as int),
            decreases chunks@.len(),
        {
            let ghost before = chunks@;
            let chunk = chunks.remove(0);
            proof {
                assert(chunk@ == views(before)[0]);
                assert(views(chunks@) =~= views(before).drop_first());
            }
            match self.run_task(chunk) {
                Ok(()) => {},
                Err(e) => {
                    proof {
                        assert(cs[k as int] == chunk@);
                        assert(self.reader.reads(params@, Ok(read)) && kept_by(self.filter, read, kept)
                            && is_chunking(cs, kept, self.chunk_size as int) && self.task_fails(cs[k as int], e));
                    }
                    return Err(e);
                },
            }
            k = k + 1;
        }
        proof {
            assert(self.reader.reads(params@, Ok(read)) && kept_by(self.filter, read, kept)
                && is_chunking(cs, kept, self.chunk_size as int));
        }
        Ok(())
    }

    fn run_task(&self, items: Vec<I>) -> (r: Result<(), JobRuntimeError<I, O>>)
        ensures
            r is Ok ==> self.task_ok(items@),
            r matches Err(e) ==> self.task_fails(items@, e),
    {
        let ghost orig = items@;
        let n = items.len();
        let mut rest = items;
        let mut targets: Vec<O> = Vec::new();
        let mut k: usize = 0;
        while rest.len() > 0
            invariant
                n == orig.len(),
                orig == items@,
                k + rest@.len() == n,
                rest@ == orig.subrange(k as int, n as int),
                self.processed_all(orig.subrange(0, k as int), targets@),
            decreases rest@.len(),
        {
            let item = rest.remove(0);
            proof {
                assert(item == orig[k as int]);
            }
            let p = &self.processor;
            match p.do_process(item) {
                Ok(t) => {
                    let ghost t0 = targets@;
                    targets.push(t);
                    proof {
                        let pre = orig.subrange(0, k as int + 1);
                        assert forall|i: int| 0 <= i < pre.len() implies #[trigger] self.processor.processes(pre[i], Ok(targets@[i])) by {
                            if i < k {
                                assert(pre[i] == orig.subrange(0, k as int)[i]);
                                assert(targets@[i] == t0[i]);
                                assert(self.processor.processes(orig.subrange(0, k as int)[i], Ok(t0[i])));
                            }
                        }
                    }
                },
                Err(e) => {
                    proof {
                        assert(k < orig.len());
                        assert(self.processor.processes(orig[k as int], Err(e)));
                        assert(orig.take(k as int) =~= orig.subrange(0, k as int));
                        assert(self.processed_all(orig.take(k as int), targets@));
                        assert(self.processed_all(orig.take(k as int), targets@)
                            && self.processor.processes(orig[k as int], Err(e)));
                        assert(self.task_fails(orig, JobRuntimeError::ProcessFailed(e)));
                    }
                    let r: Result<(), JobRuntimeError<I, O>> = Err(JobRuntimeError::ProcessFailed(e));
                    assert(r matches Err(x) && self.task_fails(orig, x));
                    return r;
                },
            }
            k = k + 1;
            proof {
                assert(rest@ =~= orig.subrange(k as int, n as int));
            }
        }
        proof {
            assert(orig.subrange(0, n as int) =~= orig);
        }
        let ghost outs = targets@;
        let w = &self.writer;
        let wr = w.do_write(targets);
        match wr {
            Ok(()) => {
                assert(self.processed_all(orig, outs) && self.writer.writes(outs, wr) && wr is Ok);
                Ok(())
            },
            Err(e) => {
                let r: Result<(), JobRuntimeError<I, O>> = Err(JobRuntimeError::WriteFailed(e));
                assert(self.processed_all(orig, outs) && self.writer.writes(outs, Err(e)));
                r
            },
        }
    }
}

/// Starts building a job.
pub fn job_builder<I>() -> (r: ReaderBuildStep<I>)
    ensures
        r.reader is None,
{
    ReaderBuildStep { reader: None }
}

/// The first step of building a job: it takes the reader.
#[verifier::reject_recursive_types(I)]
pub struct ReaderBuildStep<I> {
    pub reader: Option<Box<dyn Reader<I>>>,
}

impl<I: 'static> ReaderBuildStep<I> {
    pub fn reader(self, reader: Box<dyn Reader<I>>) -> (r: Self)
        ensures
            r.reader === Some(reader),
    {
        ReaderBuildStep { reader: Some(reader) }
    }

    /// Goes on with a filter; the reader must be set.
    pub fn filter(self, filter: Box<dyn Filter<I>>) -> (r: FilterBuildStep<I>)
        requires
            self.reader is Some,
        ensures
            r.reader === self.reader->0,
            r.filter === Some(filter),
    {
        FilterBuildStep { reader: self.reader.unwrap(), filter: Some(filter) }
    }

    /// Goes on with a processor and no filter; the reader must be set.
    pub fn processor<O>(self, processor: Box<dyn Processor<I, O>>) -> (r: ProcessorBuildStep<I, O>)
        requires
            self.reader is Some,
        ensures
            r.reader === self.reader->0,
            r.filter is None,
            r.processor === processor,
    {
        ProcessorBuildStep { reader: self.reader.unwrap(), filter: None, processor }
    }

    /// Goes on with a writer of the items as read, with no filter and a
    /// processor that hands each item back; the reader must be set.
    pub fn writer(self, writer: Box<dyn Writer<I>>) -> (r: WriterBuildStep<I, I>)
        requires
            self.reader is Some,
        ensures
            r.reader === self.reader->0,
            r.filter is None,
            r.writer === writer,
            forall|item: I, out: Result<I, JobProcessFailed<I>>| #[trigger] r.processor.processes(item, out) <==> out == Ok::<I, JobProcessFailed<I>>(item),
    {
        let p = PhantomProcessor::<I>::new();
        WriterBuildStep { reader: self.reader.unwrap(), filter: None, processor: Box::new(p), writer }
    }
}

/// The step after the filter: it takes the processor, or the writer.
#[verifier::reject_recursive_types(I)]
pub struct FilterBuildStep<I> {
    pub reader: Box<dyn Reader<I>>,
    pub filter: Option<Box<dyn Filter<I>>>,
}

impl<I: 'static> FilterBuildStep<I> {
    pub fn processor<O>(self, processor: Box<dyn Processor<I, O>>) -> (r: ProcessorBuildStep<I, O>)
        ensures
            r.reader === self.reader,
            r.filter === self.filter,
            r.processor === processor,
    {
        ProcessorBuildStep { reader: self.reader, filter: self.filter, processor }
    }

    /// Goes on with a writer of the items as kept, with a processor that
    /// hands each item back.
    pub fn writer(self, writer: Box<dyn Writer<I>>) -> (r: WriterBuildStep<I, I>)
        ensures
            r.reader === self.reader,
            r.filter === self.filter,
            r.writer === writer,
            forall|item: I, out: Result<I, JobProcessFailed<I>>| #[trigger] r.processor.processes(item, out) <==> out == Ok::<I, JobProcessFailed<I>>(item),
    {
        let p = PhantomProcessor::<I>::new();
        WriterBuildStep { reader: self.reader, filter: self.filter, processor: Box::new(p), writer }
    }
}

/// The step after the processor: it takes the writer.
#[verifier::reject_recursive_types(I)]
#[verifier::reject_recursive_types(O)]
pub struct ProcessorBuildStep<I, O> {
    pub reader: Box<dyn Reader<I>>,
    pub filter: Option<Box<dyn Filter<I>>>,
    pub processor: Box<dyn Processor<I, O>>,
}

impl<I, O> ProcessorBuildStep<I, O> {
    pub fn writer(self, writer: Box<dyn Writer<O>>) -> (r: WriterBuildStep<I, O>)
        ensures
            r.reader === self.reader,
            r.filter === self.filter,
            r.processor === self.processor,
            r.writer === writer,
    {
        WriterBuildStep { reader: self.reader, filter: self.filter, processor: self.processor, writer }
    }
}

/// The last step: everything is set.
#[verifier::reject_recursive_types(I)]
#[verifier::reject_recursive_types(O)]
pub struct WriterBuildStep<I, O> {
    pub reader: Box<dyn Reader<I>>,
    pub filter: Option<Box<dyn Filter<I>>>,
    pub processor: Box<dyn Processor<I, O>>,
    pub writer: Box<dyn Writer<O>>,
}

impl<I, O> WriterBuildStep<I, O> {
    /// The job, with chunks of the default size.
    pub fn build(self) -> (r: Job<I, O>)
        ensures
            r.chunk_size == DEF_CHUNK_SIZE,
            r.reader === self.reader,
            r.filter === self.filter,
            r.processor === self.processor,
            r.writer === self.writer,
    {
        Job {
            reader: self.reader,
            filter: self.filter,
            processor: self.processor,
            writer: self.writer,
            chunk_size: DEF_CHUNK_SIZE,
        }
    }
}

/// A chain with no filters hands its items on unchanged.
pub proof fn lemma_empty_chain_passes<T>(fs: Seq<Box<dyn Filter<T>>>, items: Seq<T>, out: Seq<T>)
    requires
        fs.len() == 0,
    ensures
        chain_filters(fs, items, out) <==> out == items,
{
    if out == items {
        assert(steps(fs, seq![items], items, out));
    }
}

/// The chunks of a vector, put back together in order, give the vector.
pub proof fn lemma_chunks_rejoin<T>(cs: Seq<Seq<T>>, s: Seq<T>, size: int)
    requires
        is_chunking(cs, s, size),
    ensures
        concat(cs) == s,
{
}

} // verus!
