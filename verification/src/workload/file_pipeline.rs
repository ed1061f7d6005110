//! A file pipeline: read, transform, write, chunk by chunk.

use vstd::prelude::*;

use crate::allocator::Allocator;
use crate::pool::ZeroPool;
use crate::routing::{
    class_boundary, law_boundaries_route_to_their_class, lemma_boundaries, NUM_CLASSES,
};
use crate::tls::TlsState;
use crate::workload::touch::set_first;
use crate::workload::trace::{
    did, give, lemma_did_both, lemma_did_nested, lemma_did_nothing, nested, same_configuration,
    take, worked, Event, Trace,
};
use crate::workload::warm_up::{top_up, topped_up};

verus! {

/// Files in one run.
pub const NUM_FILES: usize = 500;

/// Chunks in one file.
pub const CHUNKS_PER_FILE: usize = 50;

/// Kinds of files, by how they are chunked.
#[derive(Debug, Clone, Copy, PartialEq, Eq, Structural)]
pub enum FileType {
    /// Logs and configuration.
    SmallText,
    /// Structured data.
    MediumJson,
    /// Images.
    LargeImage,
    /// Video.
    VideoChunk,
    /// Database dumps.
    Database,
}

impl FileType {
    /// The position among all kinds, which is also the size class of the chunks.
    pub open spec fn index(self) -> int {
        match self {
            FileType::SmallText => 0,
            FileType::MediumJson => 1,
            FileType::LargeImage => 2,
            FileType::VideoChunk => 3,
            FileType::Database => 4,
        }
    }

    /// The kind at a position.
    pub open spec fn at(index: int) -> FileType {
        if index == 0 {
            FileType::SmallText
        } else if index == 1 {
            FileType::MediumJson
        } else if index == 2 {
            FileType::LargeImage
        } else if index == 3 {
            FileType::VideoChunk
        } else {
            FileType::Database
        }
    }

    /// Size of a chunk: from 4 KiB to 1 MiB, in the steps of the size classes.
    pub fn chunk_size(&self) -> (n: usize)
        ensures
            n == class_boundary(self.index()),
    {
        proof {
            lemma_boundaries();
        }
        match self {
            FileType::SmallText => 4 * 1024,
            FileType::MediumJson => 16 * 1024,
            FileType::LargeImage => 64 * 1024,
            FileType::VideoChunk => 256 * 1024,
            FileType::Database => 1024 * 1024,
        }
    }

    /// The name of the kind.
    pub fn name(&self) -> (name: &'static str)
        ensures
            name@ == match *self {
                FileType::SmallText => "text"@,
                FileType::MediumJson => "json"@,
                FileType::LargeImage => "image"@,
                FileType::VideoChunk => "video"@,
                FileType::Database => "database"@,
            },
    {
        match self {
            FileType::SmallText => "text",
            FileType::MediumJson => "json",
            FileType::LargeImage => "image",
            FileType::VideoChunk => "video",
            FileType::Database => "database",
        }
    }

    /// All kinds, smallest chunks first.
    pub fn all() -> (kinds: [FileType; 5])
        ensures
            forall|i: int| 0 <= i < 5 ==> #[trigger] kinds[i] == FileType::at(i),
    {
        [
            FileType::SmallText,
            FileType::MediumJson,
            FileType::LargeImage,
            FileType::VideoChunk,
            FileType::Database,
        ]
    }
}

/// The kind of a file by its index: all kinds in turn.
pub fn select_file_type(index: usize) -> (kind: FileType)
    ensures
        kind == FileType::at(index as int % 5),
{
    FileType::all()[index % 5]
}

/// The requests for `n` chunks: for each one buffer to read into and one to write from.
pub open spec fn chunks_events(size: nat, n: int) -> Seq<Event>
    decreases n,
{
    if n <= 0 {
        Seq::empty()
    } else {
        chunks_events(size, n - 1) + nested(size, size)
    }
}

/// The requests for the first `n` files of a run.
pub open spec fn files_events(n: int) -> Seq<Event>
    decreases n,
{
    if n <= 0 {
        Seq::empty()
    } else {
        files_events(n - 1) + chunks_events(
            class_boundary(FileType::at((n - 1) % 5).index()) as nat,
            CHUNKS_PER_FILE as int,
        )
    }
}

/// The bytes that the first `n` files of a run move: every chunk is read once and written once.
pub open spec fn files_bytes(n: int) -> int
    decreases n,
{
    if n <= 0 {
        0
    } else {
        files_bytes(n - 1) + 2 * CHUNKS_PER_FILE * class_boundary(FileType::at((n - 1) % 5).index())
    }
}

/// Fills the shared pool with up to eight buffers per kind of file.
pub fn preallocate_buffers<A: Allocator>(pool: &mut ZeroPool<A>)
    requires
        old(pool).wf(),
    ensures
        final(pool).wf(),
        same_configuration(old(pool)@, final(pool)@),
        final(pool)@.counters == old(pool)@.counters,
        final(pool)@.shared.len() == NUM_CLASSES,
        forall|i: int|
            0 <= i < 5 ==> topped_up(
                old(pool)@.shared[i],
                #[trigger] final(pool)@.shared[i],
                8,
                old(pool)@.max_buffers,
                class_boundary(i),
            ),
        forall|i: int|
            5 <= i < NUM_CLASSES ==> #[trigger] final(pool)@.shared[i] == old(pool)@.shared[i],
{
    let kinds = FileType::all();
    let mut k: usize = 0;
    while k < 5
        invariant
            k <= 5,
            pool.wf(),
            same_configuration(old(pool)@, pool@),
            pool@.counters == old(pool)@.counters,
            forall|i: int| 0 <= i < 5 ==> #[trigger] kinds[i] == FileType::at(i),
            forall|i: int|
                0 <= i < k ==> topped_up(
                    old(pool)@.shared[i],
                    #[trigger] pool@.shared[i],
                    8,
                    old(pool)@.max_buffers,
                    class_boundary(i),
                ),
            forall|i: int|
                k <= i < NUM_CLASSES ==> #[trigger] pool@.shared[i] == old(pool)@.shared[i],
        decreases 5 - k,
    {
        let size: usize = kinds[k].chunk_size();
        proof {
            assert(kinds[k as int].index() == k);
            law_boundaries_route_to_their_class(k as int);
        }
        top_up(pool, 8, size);
        k = k + 1;
    }
}

/// Sends a file through the pipeline and returns how many bytes were moved.
pub fn process_file<A: Allocator>(
    pool: &mut ZeroPool<A>,
    tls: &mut TlsState,
    trace: &mut Trace,
    file_type: FileType,
) -> (bytes: usize)
    requires
        old(pool).wf(),
        old(tls).wf(),
    ensures
        worked(*old(pool), *old(tls), *old(trace), *final(pool), *final(tls), *final(trace)),
        bytes == 2 * CHUNKS_PER_FILE * class_boundary(file_type.index()),
        did(
            *old(trace),
            *final(trace),
            chunks_events(class_boundary(file_type.index()) as nat, CHUNKS_PER_FILE as int),
        ),
{
    proof {
        lemma_boundaries();
    }
    let chunk_size: usize = file_type.chunk_size();
    let ghost size = chunk_size as nat;
    let mut total_bytes: usize = 0;
    let mut done: usize = 0;
    proof {
        lemma_did_nothing(*trace);
    }
    while done < CHUNKS_PER_FILE
        invariant
            done <= CHUNKS_PER_FILE,
            worked(*old(pool), *old(tls), *old(trace), *pool, *tls, *trace),
            chunk_size <= 1048576,
            size == chunk_size,
            total_bytes == 2 * done * chunk_size,
            did(*old(trace), *trace, chunks_events(size, done as int)),
        decreases CHUNKS_PER_FILE - done,
    {
        let ghost before = *trace;
        let mut read_buffer = take(pool, tls, trace, chunk_size);
        set_first(read_buffer.as_mut(), 1);
        assert(2 * done * chunk_size <= 100 * 1048576) by (nonlinear_arith)
            requires
                done <= 50,
                chunk_size <= 1048576,
        ;
        total_bytes = total_bytes + read_buffer.len();
        let mut write_buffer = take(pool, tls, trace, chunk_size);
        set_first(write_buffer.as_mut(), 1);
        total_bytes = total_bytes + write_buffer.len();
        let ghost (outer, inner) = (read_buffer.cap(), write_buffer.cap());
        give(pool, tls, trace, write_buffer);
        give(pool, tls, trace, read_buffer);
        assert(2 * (done + 1) * chunk_size == 2 * done * chunk_size + 2 * chunk_size)
            by (nonlinear_arith);
        proof {
            lemma_did_nested(before, *trace, size, size, outer, inner);
            lemma_did_both(
                *old(trace),
                before,
                *trace,
                chunks_events(size, done as int),
                nested(size, size),
            );
        }
        done = done + 1;
    }
    total_bytes
}

/// Processes a whole run of files, the kinds in turn, and returns how many bytes were moved.
pub fn process_all_files<A: Allocator>(
    pool: &mut ZeroPool<A>,
    tls: &mut TlsState,
    trace: &mut Trace,
    num_files: usize,
) -> (bytes: usize)
    requires
        old(pool).wf(),
        old(tls).wf(),
        files_bytes(num_files as int) <= usize::MAX,
    ensures
        worked(*old(pool), *old(tls), *old(trace), *final(pool), *final(tls), *final(trace)),
        bytes == files_bytes(num_files as int),
        did(*old(trace), *final(trace), files_events(num_files as int)),
{
    let mut total_bytes: usize = 0;
    let mut file_idx: usize = 0;
    proof {
        lemma_did_nothing(*trace);
    }
    while file_idx < num_files
        invariant
            file_idx <= num_files,
            files_bytes(num_files as int) <= usize::MAX,
            worked(*old(pool), *old(tls), *old(trace), *pool, *tls, *trace),
            total_bytes == files_bytes(file_idx as int),
            did(*old(trace), *trace, files_events(file_idx as int)),
        decreases num_files - file_idx,
    {
        let file_type = select_file_type(file_idx);
        let ghost before = *trace;
        let moved: usize = process_file(pool, tls, trace, file_type);
        proof {
            lemma_files_bytes(file_idx as int + 1, num_files as int);
            assert(files_bytes(file_idx as int + 1) == files_bytes(file_idx as int) + moved);
            lemma_did_both(
                *old(trace),
                before,
                *trace,
                files_events(file_idx as int),
                chunks_events(
                    class_boundary(FileType::at(file_idx as int % 5).index()) as nat,
                    CHUNKS_PER_FILE as int,
                ),
            );
        }
        total_bytes = total_bytes + moved;
        file_idx = file_idx + 1;
    }
    total_bytes
}

/// More files move more bytes.
proof fn lemma_files_bytes(a: int, b: int)
    requires
        a <= b,
    ensures
        files_bytes(a) <= files_bytes(b),
    decreases b - a,
{
    lemma_boundaries();
    if a < b {
        lemma_files_bytes(a, b - 1);
        if b > 0 {
            assert(0 <= (b - 1) % 5 < 5);
        }
    }
}

} // verus!
