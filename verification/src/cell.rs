//! The single-slot cell that carries the appliance's state and the button's
//! presses between its components.
//!
//! A cell holds the latest value written to it and, for each of its readers,
//! whether that reader has acknowledged it. Writes are not queued: a value
//! that nobody read is simply superseded, and any number of writes leaves one
//! pending change per reader.

use vstd::prelude::*;
use crate::state::SystemState;

verus! {

/// A breach of the protocol between the components. None of them can be
/// recovered from: the loop that meets one has to end.
#[derive(Clone, Copy, Debug, PartialEq, Eq, Hash, Structural)]
pub enum ProtocolError {
    /// The cell was closed by its writer.
    Closed,
    /// The cell has no reader of that number.
    UnknownReader,
    /// The orchestrator was handed an observation that it did not ask for.
    UnexpectedObservation,
}

/// The mathematical content of a cell.
pub struct CellView<T> {
    /// The value written last.
    pub value: T,
    /// For each reader, whether a write has happened since its last
    /// acknowledgement.
    pub changed: Seq<bool>,
    /// Whether the writer has closed the cell.
    pub closed: bool,
}

impl<T> CellView<T> {
    /// A cell that holds `value` and has no reader yet.
    pub open spec fn fresh(value: T) -> CellView<T> {
        CellView { value, changed: Seq::empty(), closed: false }
    }

    /// Whether `reader` is one of the cell's readers.
    pub open spec fn knows(self, reader: int) -> bool {
        0 <= reader < self.changed.len()
    }

    /// Whether `reader` has a change to acknowledge.
    pub open spec fn pending(self, reader: int) -> bool {
        self.changed[reader]
    }

    /// The cell with one more reader, who has nothing to acknowledge.
    pub open spec fn subscribed(self) -> CellView<T> {
        CellView { changed: self.changed.push(false), ..self }
    }

    /// The cell after `value` was written: it is the current value and every
    /// reader has a change to acknowledge.
    pub open spec fn published(self, value: T) -> CellView<T> {
        CellView { value, changed: Seq::new(self.changed.len(), |i: int| true), ..self }
    }

    /// The cell after `reader` acknowledged what there was to see.
    pub open spec fn acknowledged(self, reader: int) -> CellView<T> {
        CellView { changed: self.changed.update(reader, false), ..self }
    }

    /// The cell after every value of `values` was written in turn.
    pub open spec fn published_all(self, values: Seq<T>) -> CellView<T>
        decreases values.len(),
    {
        if values.len() == 0 {
            self
        } else {
            self.published_all(values.drop_last()).published(values.last())
        }
    }

    /// What `reader` gets when it takes the value if it has changed.
    pub open spec fn taken(self, reader: int) -> Option<T> {
        if self.pending(reader) {
            Some(self.value)
        } else {
            None
        }
    }

    /// The error that a reader's request meets, if any: a closed cell
    /// answers no request, and an open one only its own readers.
    pub open spec fn refusal(self, reader: int) -> Option<ProtocolError> {
        if self.closed {
            Some(ProtocolError::Closed)
        } else if !self.knows(reader) {
            Some(ProtocolError::UnknownReader)
        } else {
            None
        }
    }

    /// The closed cell.
    pub open spec fn shut(self) -> CellView<T> {
        CellView { closed: true, ..self }
    }
}

/// Writes are coalesced: however many values were written since a reader's
/// last acknowledgement, the reader finds exactly one change pending, which
/// carries the last of them, and none after it has taken that one.
pub proof fn lemma_writes_coalesce<T>(cell: CellView<T>, reader: int, values: Seq<T>)
    requires
        cell.knows(reader),
        values.len() > 0,
    ensures
        cell.published_all(values).knows(reader),
        cell.published_all(values).taken(reader) == Some(values.last()),
        cell.published_all(values).acknowledged(reader).taken(reader) == None::<T>,
        cell.published_all(values).changed.len() == cell.changed.len(),
{
    lemma_published_all_keeps_readers(cell, values.drop_last());
}

/// Writing never adds or removes a reader, nor opens or closes the cell.
pub proof fn lemma_published_all_keeps_readers<T>(cell: CellView<T>, values: Seq<T>)
    ensures
        cell.published_all(values).changed.len() == cell.changed.len(),
        cell.published_all(values).closed == cell.closed,
    decreases values.len(),
{
    if values.len() > 0 {
        lemma_published_all_keeps_readers(cell, values.drop_last());
    }
}

/// An acknowledgement concerns one reader only: what the others have
/// pending stays pending.
pub proof fn lemma_acknowledgement_is_per_reader<T>(cell: CellView<T>, reader: int, other: int)
    requires
        cell.knows(reader),
        cell.knows(other),
        other != reader,
    ensures
        cell.acknowledged(reader).pending(other) == cell.pending(other),
        !cell.acknowledged(reader).pending(reader),
{
}

/// A single-slot cell with one change flag per reader.
#[derive(Clone, Debug)]
pub struct WatchCell<T> {
    value: T,
    changed: Vec<bool>,
    closed: bool,
}

/// The cell that carries the appliance's current state.
pub type StatusCell = WatchCell<SystemState>;

/// The cell that carries the button's presses: a write is a press.
pub type ButtonLatch = WatchCell<()>;

impl<T> View for WatchCell<T> {
    type V = CellView<T>;

    closed spec fn view(&self) -> CellView<T> {
        CellView { value: self.value, changed: self.changed@, closed: self.closed }
    }
}

impl<T: Copy> WatchCell<T> {
    /// A cell that holds `value` and has no reader yet.
    pub fn new(value: T) -> (cell: WatchCell<T>)
        ensures
            cell@ == CellView::fresh(value),
    {
        WatchCell { value, changed: Vec::new(), closed: false }
    }

    /// Adds a reader and returns its number. The new reader has seen the
    /// current value: it has nothing to acknowledge.
    pub fn subscribe(&mut self) -> (reader: usize)
        ensures
            reader == old(self)@.changed.len(),
            final(self)@ == old(self)@.subscribed(),
    {
        let reader = self.changed.len();
        self.changed.push(false);
        reader
    }

    /// How many readers the cell has.
    pub fn readers(&self) -> (count: usize)
        ensures
            count == self@.changed.len(),
    {
        self.changed.len()
    }

    /// Whether the cell was closed.
    pub fn is_closed(&self) -> (closed: bool)
        ensures
            closed == self@.closed,
    {
        self.closed
    }

    /// Closes the cell: from now on it takes no value and answers no reader.
    pub fn close(&mut self)
        ensures
            final(self)@ == old(self)@.shut(),
    {
        self.closed = true;
    }

    /// The current value. Reading acknowledges nothing.
    pub fn read(&self) -> (value: T)
        ensures
            value == self@.value,
    {
        self.value
    }

    /// Writes `value` over the current one and marks a change for every
    /// reader. A closed cell takes no value.
    pub fn publish(&mut self, value: T) -> (result: Result<(), ProtocolError>)
        ensures
            result == if old(self)@.closed {
                Err::<(), ProtocolError>(ProtocolError::Closed)
            } else {
                Ok(())
            },
            final(self)@ == if old(self)@.closed {
                old(self)@
            } else {
                old(self)@.published(value)
            },
    {
        if self.closed {
            return Err(ProtocolError::Closed);
        }
        let count = self.changed.len();
        let mut flags: Vec<bool> = Vec::new();
        let mut i: usize = 0;
        while i < count
            invariant
                i <= count,
                flags@.len() == i,
                forall|k: int| 0 <= k < i ==> flags@[k],
            decreases count - i,
        {
            flags.push(true);
            i = i + 1;
        }
        self.value = value;
        self.changed = flags;
        assert(self.changed@ =~= Seq::new(old(self)@.changed.len(), |k: int| true));
        Ok(())
    }

    /// Whether `reader` has a change to acknowledge.
    pub fn has_changed(&self, reader: usize) -> (result: Result<bool, ProtocolError>)
        ensures
            result == match self@.refusal(reader as int) {
                Some(e) => Err::<bool, ProtocolError>(e),
                None => Ok(self@.pending(reader as int)),
            },
    {
        if self.closed {
            Err(ProtocolError::Closed)
        } else if reader >= self.changed.len() {
            Err(ProtocolError::UnknownReader)
        } else {
            Ok(self.changed[reader])
        }
    }

    /// Acknowledges whatever `reader` had pending.
    pub fn mark_unchanged(&mut self, reader: usize) -> (result: Result<(), ProtocolError>)
        ensures
            result == match old(self)@.refusal(reader as int) {
                Some(e) => Err::<(), ProtocolError>(e),
                None => Ok(()),
            },
            final(self)@ == if result is Ok {
                old(self)@.acknowledged(reader as int)
            } else {
                old(self)@
            },
    {
        if self.closed {
            Err(ProtocolError::Closed)
        } else if reader >= self.changed.len() {
            Err(ProtocolError::UnknownReader)
        } else {
            self.changed.set(reader, false);
            Ok(())
        }
    }

    /// Checks and clears `reader`'s change flag in one step: the current
    /// value if the reader had a change pending, nothing otherwise.
    pub fn take_if_changed(&mut self, reader: usize) -> (result: Result<Option<T>, ProtocolError>)
        ensures
            result == match old(self)@.refusal(reader as int) {
                Some(e) => Err::<Option<T>, ProtocolError>(e),
                None => Ok(old(self)@.taken(reader as int)),
            },
            final(self)@ == if result is Ok {
                old(self)@.acknowledged(reader as int)
            } else {
                old(self)@
            },
    {
        if self.closed {
            Err(ProtocolError::Closed)
        } else if reader >= self.changed.len() {
            Err(ProtocolError::UnknownReader)
        } else if self.changed[reader] {
            self.changed.set(reader, false);
            Ok(Some(self.value))
        } else {
            assert(self.changed@.update(reader as int, false) =~= self.changed@);
            Ok(None)
        }
    }
}

} // verus!
