use vstd::prelude::*;

verus! {

/// The most chunks that a parallel batch is cut into.
pub const MAX_CHUNKS: usize = 1024;

/// How many chunks a batch of `len` items is cut into when `threads` workers
/// share it: `min(1024, len / threads)`, and never fewer than one.
pub open spec fn chunk_count_spec(len: nat, threads: nat) -> nat {
    let q = len / threads;
    let k = if q < MAX_CHUNKS { q } else { MAX_CHUNKS as nat };
    if k == 0 {
        1
    } else {
        k
    }
}

/// The number of contiguous chunks of at most `size` items that `len` items
/// fill: the ceiling of `len / size`.
pub open spec fn num_chunks(len: nat, size: nat) -> nat {
    len / size + if len % size == 0 {
        0nat
    } else {
        1nat
    }
}

/// The chunk length that cuts `len` items into at most `count` chunks: the
/// ceiling of `len / count`, and one for an empty batch.
pub open spec fn chunk_len_spec(len: nat, count: nat) -> nat {
    if len == 0 {
        1
    } else {
        num_chunks(len, count)
    }
}

proof fn lemma_ceil_bound(len: nat, count: nat)
    requires
        len > 0,
        count >= 1,
    ensures
        chunk_len_spec(len, count) >= 1,
        num_chunks(len, chunk_len_spec(len, count)) <= count,
{
    let s = chunk_len_spec(len, count);
    let q = len / count;
    let m = len % count;
    assert(len == count * q + m) by (nonlinear_arith)
        requires
            count >= 1,
            q == len / count,
            m == len % count,
    ;
    assert(0 <= m < count);
    assert(s >= 1);
    assert(len <= count * s) by (nonlinear_arith)
        requires
            len == count * q + m,
            s == q + (if m == 0 { 0nat } else { 1nat }),
            0 <= m < count,
    ;
    let q2 = len / s;
    let m2 = len % s;
    assert(len == s * q2 + m2) by (nonlinear_arith)
        requires
            s >= 1,
            q2 == len / s,
            m2 == len % s,
    ;
    assert(0 <= m2 < s);
    assert(q2 <= count) by (nonlinear_arith)
        requires
            len == s * q2 + m2,
            len <= count * s,
            m2 >= 0,
            s >= 1,
    ;
    if q2 == count {
        assert(m2 == 0) by (nonlinear_arith)
            requires
                len == s * q2 + m2,
                len <= count * s,
                q2 == count,
                m2 >= 0,
        ;
    }
}

/// The number of chunks for `len` items shared by `threads` workers.
pub fn chunk_count(len: usize, threads: usize) -> (r: usize)
    requires
        threads >= 1,
    ensures
        r == chunk_count_spec(len as nat, threads as nat),
        1 <= r <= MAX_CHUNKS,
{
    let q: usize = len / threads;
    let k: usize = if q < MAX_CHUNKS {
        q
    } else {
        MAX_CHUNKS
    };
    if k == 0 {
        1
    } else {
        k
    }
}

/// The length of the chunks that cut `len` items into at most `count`
/// contiguous chunks.
pub fn chunk_len(len: usize, count: usize) -> (r: usize)
    requires
        count >= 1,
    ensures
        r == chunk_len_spec(len as nat, count as nat),
        r >= 1,
        num_chunks(len as nat, r as nat) <= count,
{
    if len == 0 {
        return 1;
    }
    proof {
        lemma_ceil_bound(len as nat, count as nat);
    }
    let q: usize = len / count;
    let extra: usize = if len % count == 0 {
        0
    } else {
        1
    };
    assert(q < len || count == 1) by (nonlinear_arith)
        requires
            len > 0,
            count >= 1,
            q == len / count,
    ;
    q + extra
}

/// Relies on rayon::current_num_threads: the number of worker threads in the
/// current pool. The pool is built with at least one thread, so the result is
/// never zero; it may differ from one call to the next.
#[verifier::external_body]
fn current_num_threads() -> (r: usize)
    ensures
        r >= 1,
{
    rayon::current_num_threads()
}

/// The chunk length for a parallel batch of `len` items, planned for the
/// number of workers that the current thread pool has.
///
/// Whatever that number is, the result is positive and cuts the batch into at
/// most `MAX_CHUNKS` chunks.
pub fn parallel_chunk_len(len: usize) -> (r: usize)
    ensures
        r >= 1,
        num_chunks(len as nat, r as nat) <= MAX_CHUNKS,
        exists|threads: nat|
            threads >= 1 && r == chunk_len_spec(len as nat, chunk_count_spec(len as nat, threads)),
{
    let threads: usize = current_num_threads();
    let count: usize = chunk_count(len, threads);
    chunk_len(len, count)
}

/// `s` cut into contiguous chunks of `size` items, the last one possibly
/// shorter.
pub open spec fn chunks_of<T>(s: Seq<T>, size: nat) -> Seq<Seq<T>>
    decreases s.len(),
{
    if s.len() == 0 || size == 0 {
        Seq::empty()
    } else if s.len() <= size {
        seq![s]
    } else {
        seq![s.take(size as int)] + chunks_of(s.skip(size as int), size)
    }
}

/// Cutting into chunks of a positive size gives `num_chunks` chunks, each of
/// them non-empty and at most `size` long.
pub proof fn lemma_chunks_shape<T>(s: Seq<T>, size: nat)
    requires
        size >= 1,
    ensures
        chunks_of(s, size).len() == num_chunks(s.len(), size),
        forall|j: int|
            0 <= j < chunks_of(s, size).len() ==> 1 <= #[trigger] chunks_of(s, size)[j].len()
                <= size,
    decreases s.len(),
{
    if s.len() == 0 {
        assert(num_chunks(0, size) == 0) by (nonlinear_arith)
            requires
                size >= 1,
        ;
    } else if s.len() <= size {
        if s.len() == size {
            assert(num_chunks(s.len(), size) == 1) by (nonlinear_arith)
                requires
                    s.len() == size,
                    size >= 1,
            ;
        } else {
            assert(num_chunks(s.len(), size) == 1) by (nonlinear_arith)
                requires
                    s.len() < size,
                    s.len() >= 1,
            ;
        }
    } else {
        let rest = s.skip(size as int);
        lemma_chunks_shape(rest, size);
        let n = s.len();
        assert(num_chunks(n, size) == num_chunks((n - size) as nat, size) + 1) by {
            lemma_div_mod_step(n, size);
        }
        let c = chunks_of(s, size);
        assert(c == seq![s.take(size as int)] + chunks_of(rest, size));
        assert forall|j: int| 0 <= j < c.len() implies 1 <= #[trigger] c[j].len() <= size by {
            if j > 0 {
                assert(c[j] == chunks_of(rest, size)[j - 1]);
            }
        }
    }
}

proof fn lemma_div_mod_step(n: nat, size: nat)
    requires
        size >= 1,
        n > size,
    ensures
        n / size == (n - size) as nat / size + 1,
        n % size == (n - size) as nat % size,
{
    vstd::arithmetic::div_mod::lemma_div_plus_one(n as int - size as int, size as int);
    vstd::arithmetic::div_mod::lemma_mod_add_multiples_vanish(n as int - size as int, size as int);
}

/// Joining the chunks back together, in order, gives the sequence that was
/// cut: every item lies in exactly one chunk, at its own position.
pub proof fn lemma_chunks_rejoin<T>(s: Seq<T>, size: nat)
    requires
        size >= 1,
    ensures
        chunks_of(s, size).flatten() == s,
    decreases s.len(),
{
    if s.len() == 0 {
        assert(chunks_of(s, size).flatten() =~= s);
    } else if s.len() <= size {
        seq![s].lemma_flatten_one_element();
    } else {
        let rest = s.skip(size as int);
        lemma_chunks_rejoin(rest, size);
        let head = seq![s.take(size as int)];
        vstd::seq_lib::lemma_flatten_concat(head, chunks_of(rest, size));
        head.lemma_flatten_one_element();
        assert(s.take(size as int) + rest =~= s);
    }
}

/// Running an element-wise kernel on every chunk and joining the chunk
/// outputs gives the same sequence as running it on the whole batch at once,
/// whatever the chunk size.
pub proof fn lemma_chunked_map_matches<T, U>(s: Seq<T>, size: nat, g: spec_fn(T) -> U)
    requires
        size >= 1,
    ensures
        chunks_of(s, size).map_values(|c: Seq<T>| c.map_values(g)).flatten() == s.map_values(g),
    decreases s.len(),
{
    let per_chunk = |c: Seq<T>| c.map_values(g);
    if s.len() == 0 {
        assert(chunks_of(s, size).map_values(per_chunk).flatten() =~= s.map_values(g));
    } else if s.len() <= size {
        assert(chunks_of(s, size).map_values(per_chunk) =~= seq![s.map_values(g)]);
        seq![s.map_values(g)].lemma_flatten_one_element();
    } else {
        let rest = s.skip(size as int);
        lemma_chunked_map_matches(rest, size, g);
        let head = seq![s.take(size as int).map_values(g)];
        let tail = chunks_of(rest, size).map_values(per_chunk);
        assert(chunks_of(s, size).map_values(per_chunk) =~= head + tail);
        vstd::seq_lib::lemma_flatten_concat(head, tail);
        head.lemma_flatten_one_element();
        assert(s.take(size as int).map_values(g) + rest.map_values(g) =~= s.map_values(g));
    }
}

/// Cutting a batch with the chunk length planned for any positive number of
/// workers gives at most the planned number of chunks, and so never more
/// than `MAX_CHUNKS`.
pub proof fn lemma_planned_cut<T>(s: Seq<T>, threads: nat)
    requires
        threads >= 1,
    ensures
        chunks_of(s, chunk_len_spec(s.len(), chunk_count_spec(s.len(), threads))).len()
            <= chunk_count_spec(s.len(), threads),
        chunk_count_spec(s.len(), threads) <= MAX_CHUNKS,
{
    let count = chunk_count_spec(s.len(), threads);
    let size = chunk_len_spec(s.len(), count);
    if s.len() > 0 {
        lemma_ceil_bound(s.len(), count);
    }
    lemma_chunks_shape(s, size);
}

} // verus!
