//! Open Kernel process-start arguments.
//!
//! The startup block holds `argc` pointers to NUL-terminated strings. Reading
//! them is left to the caller; `ArgsReader` says which slot to read next and
//! gathers the bytes, stopping at the first null slot.
use vstd::prelude::*;

verus! {

/// How many slots a startup block with argument count `argc` may hold; a
/// negative count holds none.
pub open spec fn arg_limit(argc: isize) -> nat {
    if argc > 0 { argc as nat } else { 0 }
}

/// Gathers the process arguments slot by slot.
pub struct ArgsReader {
    limit: usize,
    values: Vec<Vec<u8>>,
    stopped: bool,
    slots_read: Ghost<Seq<Option<Seq<u8>>>>,
    argv_null: Ghost<bool>,
}

impl ArgsReader {
    /// The most arguments there can be.
    pub closed spec fn limit(self) -> nat {
        self.limit as nat
    }

    /// The arguments gathered so far.
    pub closed spec fn values(self) -> Seq<Seq<u8>> {
        self.values.deep_view()
    }

    /// Whether a null slot (or a null vector) ended the arguments.
    pub closed spec fn stopped(self) -> bool {
        self.stopped
    }

    /// The contents of the slots read so far, in order: slot `i` is the `i`-th
    /// read (`None` for a null pointer).
    pub closed spec fn slots_read(self) -> Seq<Option<Seq<u8>>> {
        self.slots_read@
    }

    /// Whether the argument vector itself was null.
    pub closed spec fn argv_null(self) -> bool {
        self.argv_null@
    }

    /// The reader has nothing more to read.
    pub open spec fn is_done(self) -> bool {
        self.stopped() || self.values().len() == self.limit()
    }

    /// The internal state is consistent.
    pub closed spec fn wf(self) -> bool {
        &&& self.values@.len() <= self.limit
        &&& self.argv_null@ ==> self.stopped && self.slots_read@.len() == 0
        &&& self.slots_read@.len() == self.values@.len() + if self.stopped && !self.argv_null@ { 1int } else { 0int }
        &&& forall|i: int| 0 <= i < self.values@.len() ==> #[trigger] self.slots_read@[i] == Some(self.values.deep_view()[i])
        &&& self.stopped && !self.argv_null@ ==> self.slots_read@.last() is None
    }

    /// Starts gathering for `argc` arguments; a null argument vector holds none.
    pub fn new(argc: isize, argv_is_null: bool) -> (reader: ArgsReader)
        ensures
            reader.wf(),
            reader.limit() == arg_limit(argc),
            argc > 0 ==> reader.limit() == argc,
            argc <= 0 ==> reader.limit() == 0,
            reader.values() == Seq::<Seq<u8>>::empty(),
            reader.stopped() == argv_is_null,
            reader.argv_null() == argv_is_null,
            reader.slots_read() == Seq::<Option<Seq<u8>>>::empty(),
    {
        let limit: usize = if argc > 0 { argc as usize } else { 0 };
        let reader = ArgsReader {
            limit,
            values: Vec::new(),
            stopped: argv_is_null,
            slots_read: Ghost(Seq::empty()),
            argv_null: Ghost(argv_is_null),
        };
        assert(reader.values() =~= Seq::<Seq<u8>>::empty());
        reader
    }

    /// The slot to read next, or `None` when all arguments are gathered.
    pub fn next_slot(&self) -> (slot: Option<usize>)
        requires
            self.wf(),
        ensures
            slot == if self.stopped() || self.values().len() == self.limit() {
                None::<usize>
            } else {
                Some(self.values().len() as usize)
            },
            slot matches Some(index) ==> index == self.slots_read().len(),
    {
        if self.stopped || self.values.len() == self.limit {
            None
        } else {
            Some(self.values.len())
        }
    }

    /// Takes the contents of the slot that `next_slot` named: the string's
    /// bytes, or `None` for a null pointer, which ends the arguments.
    pub fn accept(&mut self, slot: Option<Vec<u8>>)
        requires
            old(self).wf(),
            !old(self).stopped(),
            old(self).values().len() < old(self).limit(),
        ensures
            final(self).wf(),
            final(self).limit() == old(self).limit(),
            final(self).argv_null() == old(self).argv_null(),
            final(self).slots_read() == old(self).slots_read().push(slot.deep_view()),
            match slot {
                None => final(self).stopped() && final(self).values() == old(self).values(),
                Some(bytes) => !final(self).stopped() && final(self).values() == old(self).values().push(bytes@),
            },
    {
        let ghost before = self.values();
        let ghost slots_before = self.slots_read@;
        let ghost slot_view = slot.deep_view();
        self.slots_read = Ghost(slots_before.push(slot_view));
        match slot {
            None => {
                self.stopped = true;
            },
            Some(bytes) => {
                let ghost b = bytes@;
                assert(bytes.deep_view() =~= b);
                assert(slot_view == Some(b));
                self.values.push(bytes);
                assert(self.values@.last()@ == b);
                assert(self.values.deep_view()[before.len() as int] =~= b);
                assert(self.values() =~= before.push(b));
                assert forall|i: int| 0 <= i < self.values@.len() implies #[trigger] self.slots_read@[i]
                    == Some(self.values.deep_view()[i]) by {
                    if i < before.len() {
                        assert(self.slots_read@[i] == slots_before[i]);
                    }
                }
            },
        }
    }

    /// The arguments gathered.
    pub fn into_values(self) -> (values: Vec<Vec<u8>>)
        ensures
            values.deep_view() == self.values(),
    {
        self.values
    }
}

/// Two readers over the same startup memory gather the same arguments: if
/// both are done, were started with the same count and the same (null or not)
/// vector, and every slot that both read held the same contents, their
/// arguments are equal. So calling `args` twice gives equal values.
pub proof fn law_same_memory_same_arguments(first: ArgsReader, second: ArgsReader)
    requires
        first.wf(),
        second.wf(),
        first.is_done(),
        second.is_done(),
        first.limit() == second.limit(),
        first.argv_null() == second.argv_null(),
        forall|i: int|
            0 <= i < first.slots_read().len() && 0 <= i < second.slots_read().len()
                ==> first.slots_read()[i] == second.slots_read()[i],
    ensures
        first.values() == second.values(),
{
    lemma_done_reader_shorter_is_equal(first, second);
    lemma_done_reader_shorter_is_equal(second, first);
    let n = first.values().len();
    assert forall|i: int| 0 <= i < n implies first.values()[i] == second.values()[i] by {
        assert(first.slots_read()[i] == Some(first.values()[i]));
        assert(second.slots_read()[i] == Some(second.values()[i]));
    }
    assert(first.values() =~= second.values());
}

proof fn lemma_done_reader_shorter_is_equal(first: ArgsReader, second: ArgsReader)
    requires
        first.wf(),
        second.wf(),
        first.is_done(),
        second.is_done(),
        first.limit() == second.limit(),
        first.argv_null() == second.argv_null(),
        forall|i: int|
            0 <= i < first.slots_read().len() && 0 <= i < second.slots_read().len()
                ==> first.slots_read()[i] == second.slots_read()[i],
    ensures
        first.values().len() >= second.values().len(),
{
    let n = first.values().len();
    if n < second.values().len() {
        if first.argv_null() {
            assert(second.slots_read().len() == 0);
        } else if first.stopped() {
            assert(first.slots_read()[n as int] is None);
            assert(second.slots_read()[n as int] == Some(second.values()[n as int]));
        } else {
            assert(n == first.limit());
        }
    }
}

/// A reader started for `argc` arguments on a non-null vector, done without
/// meeting a null slot, holds exactly `argc` arguments (none for a negative
/// count): every slot the count allows is read.
pub proof fn law_reader_holds_argc_arguments(reader: ArgsReader, argc: isize)
    requires
        reader.wf(),
        reader.limit() == arg_limit(argc),
        !reader.argv_null(),
        reader.is_done(),
        forall|i: int| 0 <= i < reader.slots_read().len() ==> #[trigger] reader.slots_read()[i] is Some,
    ensures
        argc >= 0 ==> reader.values().len() == argc,
        argc < 0 ==> reader.values().len() == 0,
{
    if reader.stopped() {
        assert(reader.slots_read()[reader.slots_read().len() - 1] is Some);
    }
}

} // verus!
