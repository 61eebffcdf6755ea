//! Console input and output for Open Kernel.
//!
//! Input arrives one key at a time from the kernel: a key of 0 means no more
//! input, and a newline ends a line. A read fills the caller's buffers with
//! what `ConsoleRead` decides; output goes to the console in chunks of at most
//! `CONSOLE_WRITE_MAX` bytes.
use vstd::prelude::*;
use crate::io_error::{ErrorKind, IoError};

verus! {

/// The syscall that returns the next console key.
pub const SYS_READ_KEY: usize = 6;

/// The syscall that writes bytes to the console.
pub const SYS_WRITE_CONSOLE: usize = 1;

/// The most bytes the console syscall accepts at once.
pub const CONSOLE_WRITE_MAX: usize = 256;

/// The key that ends a line.
pub const NEWLINE: u8 = 0x0a;

/// The buffer size that standard input uses.
pub const STDIN_BUF_SIZE: usize = 1;

/// The console input handle.
pub struct Stdin;

/// The console output handle; standard error writes to the console too.
pub struct Stdout;

impl Stdin {
    pub fn new() -> (stdin: Stdin)
        ensures
            stdin == Stdin,
    {
        Stdin
    }
}

impl Stdout {
    pub fn new() -> (stdout: Stdout)
        ensures
            stdout == Stdout,
    {
        Stdout
    }
}

/// Whether `error` means that the stream is gone: the console reports a closed
/// stream as a broken pipe.
pub fn is_ebadf(error: &IoError) -> (gone: bool)
    ensures
        gone == (error.kind_of() == ErrorKind::BrokenPipe),
{
    error.kind() == ErrorKind::BrokenPipe
}

/// The stream that panic messages go to: the console.
pub fn panic_output() -> (output: Option<Stdout>)
    ensures
        output == Some(Stdout),
{
    Some(Stdout::new())
}

/// The key in the raw value that the read-key syscall returned (its low byte).
pub fn console_key(raw: usize) -> (key: u8)
    ensures
        key == raw % 256,
{
    (raw % 256) as u8
}

/// How many of `len` bytes one console write passes to the kernel.
pub fn console_chunk_len(len: usize) -> (chunk: usize)
    ensures
        chunk <= CONSOLE_WRITE_MAX,
        chunk == if len <= CONSOLE_WRITE_MAX { len } else { CONSOLE_WRITE_MAX },
{
    if len <= CONSOLE_WRITE_MAX {
        len
    } else {
        CONSOLE_WRITE_MAX
    }
}

/// The outcome of a console write from the count the kernel returned: a reply
/// that is negative as a signed value (above `isize::MAX` as unsigned) is a
/// failure, anything else is the number of bytes written.
pub fn console_write_result(written: usize) -> (result: Result<usize, IoError>)
    ensures
        written > isize::MAX ==> result == Err::<usize, IoError>(IoError::Simple(ErrorKind::Other)),
        written <= isize::MAX ==> result == Ok::<usize, IoError>(written),
{
    if written > isize::MAX as usize {
        Err(IoError::Simple(ErrorKind::Other))
    } else {
        Ok(written)
    }
}

/// The first buffer with bytes in it, among buffers of the given lengths;
/// a vectored write writes only that one.
pub fn first_nonempty(lens: &Vec<usize>) -> (index: Option<usize>)
    ensures
        match index {
            None => forall|i: int| 0 <= i < lens@.len() ==> lens@[i] == 0,
            Some(i) => i < lens@.len() && lens@[i as int] != 0 && forall|j: int|
                0 <= j < i ==> lens@[j] == 0,
        },
{
    let mut i: usize = 0;
    while i < lens.len()
        invariant
            i <= lens@.len(),
            forall|j: int| 0 <= j < i ==> lens@[j] == 0,
        decreases lens@.len() - i,
    {
        if lens[i] != 0 {
            return Some(i);
        }
        i = i + 1;
    }
    None
}

/// The index of the first buffer at or after `from` that can take a byte.
pub open spec fn next_open_buffer(capacities: Seq<usize>, from: int) -> int
    decreases capacities.len() - from,
{
    if from >= capacities.len() || from < 0 {
        capacities.len() as int
    } else if capacities[from] != 0 {
        from
    } else {
        next_open_buffer(capacities, from + 1)
    }
}

proof fn lemma_next_open_buffer(capacities: Seq<usize>, from: int)
    requires
        0 <= from <= capacities.len(),
    ensures
        from <= next_open_buffer(capacities, from) <= capacities.len(),
        next_open_buffer(capacities, from) < capacities.len()
            ==> capacities[next_open_buffer(capacities, from)] != 0,
        forall|j: int| from <= j < next_open_buffer(capacities, from) ==> capacities[j] == 0,
    decreases capacities.len() - from,
{
    if from < capacities.len() && capacities[from] == 0 {
        lemma_next_open_buffer(capacities, from + 1);
    }
}

/// The number of buffers before `upto` that can take a byte.
pub open spec fn open_count(capacities: Seq<usize>, upto: int) -> nat
    decreases upto,
{
    if upto <= 0 {
        0
    } else {
        open_count(capacities, upto - 1) + if capacities[upto - 1] != 0 { 1nat } else { 0nat }
    }
}

/// `n` keys of value 0.
pub open spec fn zero_keys(n: nat) -> Seq<u8> {
    Seq::new(n, |i: int| 0u8)
}

/// The keys a console read has consumed when `passed` buffers were passed over
/// (each by one 0 key), `filled` bytes went into the current buffer, and
/// `ended_by_zero` says whether a 0 key then ended the read.
pub open spec fn keys_of_read(passed: nat, filled: Seq<u8>, ended_by_zero: bool) -> Seq<u8> {
    zero_keys(passed) + filled + if ended_by_zero { seq![0u8] } else { Seq::<u8>::empty() }
}

proof fn lemma_open_count_skips_closed(capacities: Seq<usize>, from: int)
    requires
        0 <= from <= capacities.len(),
    ensures
        open_count(capacities, next_open_buffer(capacities, from)) == open_count(capacities, from),
    decreases capacities.len() - from,
{
    if from < capacities.len() && capacities[from] == 0 {
        lemma_open_count_skips_closed(capacities, from + 1);
    }
}

/// A read from the console into buffers of the given capacities, one key at a time.
///
/// Buffers are filled in order as separate reads: a read into one buffer ends
/// at a 0 key (which is not stored), after a newline (which is stored), or
/// when the buffer is full. The first buffer read that yields bytes ends the
/// whole read; a buffer that yields none passes on to the next.
pub struct ConsoleRead {
    capacities: Vec<usize>,
    current: usize,
    filled: Vec<u8>,
    finished: bool,
    consumed: Ghost<Seq<u8>>,
    ended_by_zero: Ghost<bool>,
}

impl ConsoleRead {
    /// The capacities of the buffers.
    pub closed spec fn capacities(self) -> Seq<usize> {
        self.capacities@
    }

    /// The buffer being filled (or the one that was filled last).
    pub closed spec fn current(self) -> int {
        self.current as int
    }

    /// The bytes read into the current buffer.
    pub closed spec fn filled(self) -> Seq<u8> {
        self.filled@
    }

    /// Whether the read is over.
    pub closed spec fn finished(self) -> bool {
        self.finished
    }

    /// The keys the read has taken so far, in order.
    pub closed spec fn consumed(self) -> Seq<u8> {
        self.consumed@
    }

    /// Whether a 0 key ended the read after bytes had arrived.
    pub closed spec fn ended_by_zero(self) -> bool {
        self.ended_by_zero@
    }

    /// The internal state is consistent.
    pub closed spec fn wf(self) -> bool {
        &&& self.current <= self.capacities@.len()
        &&& (self.current < self.capacities@.len() ==> self.filled@.len() <= self.capacities@[self.current as int])
        &&& (!self.finished ==> self.current < self.capacities@.len()
            && self.filled@.len() < self.capacities@[self.current as int])
        &&& (self.current == self.capacities@.len() ==> self.filled@.len() == 0)
        &&& forall|i: int| 0 <= i < self.filled@.len() ==> self.filled@[i] != 0
        &&& forall|i: int| 0 <= i < self.filled@.len() - 1 ==> self.filled@[i] != NEWLINE
        &&& (!self.finished ==> forall|i: int| 0 <= i < self.filled@.len() ==> self.filled@[i] != NEWLINE)
        &&& self.consumed@ == keys_of_read(open_count(self.capacities@, self.current as int), self.filled@,
            self.ended_by_zero@)
        &&& (self.ended_by_zero@ ==> self.finished && self.filled@.len() > 0)
        &&& (self.current < self.capacities@.len() ==> self.capacities@[self.current as int] != 0)
        &&& (self.finished && self.filled@.len() == 0 ==> self.current == self.capacities@.len())
        &&& (self.finished && self.filled@.len() > 0 && !self.ended_by_zero@ ==> self.filled@.last() == NEWLINE
            || self.filled@.len() == self.capacities@[self.current as int])
    }

    /// Starts a read into buffers of the given capacities; buffers of capacity
    /// 0 are passed over, and with none left the read is over with no bytes.
    pub fn new(capacities: Vec<usize>) -> (read: ConsoleRead)
        ensures
            read.wf(),
            read.capacities() == capacities@,
            read.current() == next_open_buffer(capacities@, 0),
            read.filled() == Seq::<u8>::empty(),
            read.finished() == (next_open_buffer(capacities@, 0) == capacities@.len()),
            read.consumed() == Seq::<u8>::empty(),
    {
        let current = Self::open_from(&capacities, 0);
        let finished = current == capacities.len();
        proof {
            lemma_open_count_skips_closed(capacities@, 0);
            assert(keys_of_read(0, Seq::<u8>::empty(), false) =~= Seq::<u8>::empty());
        }
        ConsoleRead {
            capacities,
            current,
            filled: Vec::new(),
            finished,
            consumed: Ghost(Seq::empty()),
            ended_by_zero: Ghost(false),
        }
    }

    fn open_from(capacities: &Vec<usize>, from: usize) -> (index: usize)
        requires
            from <= capacities@.len(),
        ensures
            index == next_open_buffer(capacities@, from as int),
            index <= capacities@.len(),
            index < capacities@.len() ==> capacities@[index as int] != 0,
    {
        proof {
            lemma_next_open_buffer(capacities@, from as int);
        }
        let mut i = from;
        while i < capacities.len() && capacities[i] == 0
            invariant
                from <= i <= capacities@.len(),
                next_open_buffer(capacities@, i as int) == next_open_buffer(capacities@, from as int),
            decreases capacities@.len() - i,
        {
            i = i + 1;
        }
        i
    }

    /// Whether the read wants another key.
    pub fn wants_key(&self) -> (wants: bool)
        ensures
            wants == !self.finished(),
    {
        !self.finished
    }

    /// Takes the next key the console returned.
    pub fn accept_key(&mut self, key: u8)
        requires
            old(self).wf(),
            !old(self).finished(),
        ensures
            final(self).wf(),
            final(self).capacities() == old(self).capacities(),
            final(self).consumed() == old(self).consumed().push(key),
            key == 0 && old(self).filled().len() != 0 ==> {
                &&& final(self).finished()
                &&& final(self).current() == old(self).current()
                &&& final(self).filled() == old(self).filled()
            },
            key == 0 && old(self).filled().len() == 0 ==> {
                let next = next_open_buffer(old(self).capacities(), old(self).current() + 1);
                &&& final(self).current() == next
                &&& final(self).filled() == Seq::<u8>::empty()
                &&& final(self).finished() == (next == old(self).capacities().len())
            },
            key != 0 ==> {
                &&& final(self).current() == old(self).current()
                &&& final(self).filled() == old(self).filled().push(key)
                &&& final(self).finished() == (key == NEWLINE || final(self).filled().len()
                    == old(self).capacities()[old(self).current()])
            },
    {
        let count = self.capacities.len();
        assert(self.current < count);
        let ghost passed = open_count(self.capacities@, self.current as int);
        let ghost before = self.consumed@;
        self.consumed = Ghost(before.push(key));
        if key == 0 {
            if self.filled.len() != 0 {
                self.finished = true;
                self.ended_by_zero = Ghost(true);
                assert(self.consumed@ =~= keys_of_read(passed, self.filled@, true));
            } else {
                let next = Self::open_from(&self.capacities, self.current + 1);
                proof {
                    lemma_open_count_skips_closed(self.capacities@, self.current + 1);
                    assert(open_count(self.capacities@, self.current + 1) == passed + 1);
                    assert(self.consumed@ =~= keys_of_read(passed + 1, self.filled@, false));
                }
                self.current = next;
                self.finished = next == self.capacities.len();
            }
        } else {
            self.filled.push(key);
            let full = self.filled.len() == self.capacities[self.current];
            self.finished = key == NEWLINE || full;
            assert(self.consumed@ =~= keys_of_read(passed, self.filled@, false));
        }
    }

    /// The buffer the bytes belong in and the bytes read; an index equal to the
    /// number of buffers means that no buffer received a byte.
    pub fn result(&self) -> (outcome: (usize, &Vec<u8>))
        ensures
            outcome.0 == self.current(),
            outcome.1@ == self.filled(),
    {
        (self.current, &self.filled)
    }
}

/// In every state of a console read the bytes gathered fit the current
/// buffer, hold no 0 key, and hold a newline only as their last byte; before
/// the read is over they hold no newline at all and the buffer has room left.
pub proof fn law_read_fits_and_stops_at_newline(read: ConsoleRead)
    requires
        read.wf(),
    ensures
        read.current() < read.capacities().len() ==> read.filled().len() <= read.capacities()[read.current()],
        read.current() == read.capacities().len() ==> read.filled().len() == 0,
        forall|i: int| 0 <= i < read.filled().len() ==> read.filled()[i] != 0,
        forall|i: int| 0 <= i < read.filled().len() - 1 ==> read.filled()[i] != NEWLINE,
        !read.finished() ==> read.filled().len() < read.capacities()[read.current()]
            && forall|i: int| 0 <= i < read.filled().len() ==> read.filled()[i] != NEWLINE,
{
}

/// The keys a console read takes are exactly: one 0 key for each buffer it
/// passed over (a read that yields nothing), then the bytes of the buffer that
/// receives data, then, if a 0 key ended that buffer's read, that 0 key. So the
/// data never spans two buffers, and a read into a single buffer takes exactly
/// the bytes it delivers (plus an ending 0 key).
pub proof fn law_read_takes_zeros_then_data(read: ConsoleRead)
    requires
        read.wf(),
    ensures
        read.consumed() == keys_of_read(
            open_count(read.capacities(), read.current()),
            read.filled(),
            read.ended_by_zero(),
        ),
        read.ended_by_zero() ==> read.finished() && read.filled().len() > 0,
        read.current() < read.capacities().len() ==> read.capacities()[read.current()] != 0,
        read.finished() && read.filled().len() == 0 ==> read.current() == read.capacities().len(),
        read.capacities().len() == 1 && read.current() == 0 ==> read.consumed() == read.filled() + if read.ended_by_zero() {
            seq![0u8]
        } else {
            Seq::<u8>::empty()
        },
{
    if read.capacities().len() == 1 && read.current() == 0 {
        assert(zero_keys(0) + read.filled() =~= read.filled());
    }
}

proof fn lemma_open_count_grows(capacities: Seq<usize>, a: int, b: int)
    requires
        0 <= a < b,
        capacities[a] != 0,
    ensures
        open_count(capacities, b) >= open_count(capacities, a) + 1,
    decreases b - a,
{
    if b > a + 1 {
        lemma_open_count_grows(capacities, a, b - 1);
    }
}

proof fn lemma_read_keys_shape(read: ConsoleRead)
    requires
        read.wf(),
    ensures
        ({
            let z = open_count(read.capacities(), read.current());
            let keys = read.consumed();
            &&& keys.len() == z + read.filled().len() + if read.ended_by_zero() { 1int } else { 0int }
            &&& forall|k: int| 0 <= k < z ==> keys[k] == 0
            &&& forall|k: int| 0 <= k < read.filled().len() ==> keys[z + k] == read.filled()[k]
            &&& read.filled().len() > 0 ==> keys[z as int] != 0
            &&& read.filled().len() > 0 && !read.ended_by_zero() ==> keys.last() != 0
            &&& read.ended_by_zero() ==> keys.last() == 0
        }),
{
    let z = open_count(read.capacities(), read.current());
    let keys = read.consumed();
    let f = read.filled();
    assert forall|k: int| 0 <= k < z implies keys[k] == 0 by {
        assert(keys[k] == (zero_keys(z) + f)[k]);
    }
    assert forall|k: int| 0 <= k < f.len() implies keys[z + k] == f[k] by {
        assert(keys[z + k] == (zero_keys(z) + f)[z + k]);
    }
    if f.len() > 0 && !read.ended_by_zero() {
        assert(keys.last() == f[f.len() - 1]);
    }
}

/// A console read is fixed by the buffer capacities and the keys it took: two
/// reads into buffers of the same capacities that took the same keys are in the
/// same state. So a read into uninitialised space of capacity `C` (the cursor
/// form) delivers what a read into a buffer of length `C` delivers, and two
/// reads that see the same keys deliver the same bytes into the same buffer.
pub proof fn law_same_keys_same_read(first: ConsoleRead, second: ConsoleRead)
    requires
        first.wf(),
        second.wf(),
        first.capacities() == second.capacities(),
        first.consumed() == second.consumed(),
    ensures
        first.current() == second.current(),
        first.filled() == second.filled(),
        first.finished() == second.finished(),
        first.ended_by_zero() == second.ended_by_zero(),
{
    let caps = first.capacities();
    let keys = first.consumed();
    let z1 = open_count(caps, first.current());
    let z2 = open_count(caps, second.current());
    lemma_read_keys_shape(first);
    lemma_read_keys_shape(second);
    if z1 < z2 {
        assert(keys[z1 as int] == 0);
        assert(first.filled().len() == 0);
        assert(false);
    }
    if z2 < z1 {
        assert(keys[z2 as int] == 0);
        assert(second.filled().len() == 0);
        assert(false);
    }
    if first.ended_by_zero() && !second.ended_by_zero() {
        assert(second.filled().len() > 0);
        assert(false);
    }
    if second.ended_by_zero() && !first.ended_by_zero() {
        assert(first.filled().len() > 0);
        assert(false);
    }
    assert forall|k: int| 0 <= k < first.filled().len() implies first.filled()[k] == second.filled()[k] by {
        assert(keys[z1 + k] == first.filled()[k]);
        assert(keys[z2 + k] == second.filled()[k]);
    }
    assert(first.filled() =~= second.filled());
    if first.current() < second.current() {
        lemma_open_count_grows(caps, first.current(), second.current());
        assert(false);
    }
    if second.current() < first.current() {
        lemma_open_count_grows(caps, second.current(), first.current());
        assert(false);
    }
}

} // verus!
