//! The circular delay line the chorus, the echo and the reverb are built on.
//!
//! The buffer lives outside the line: the engine hands one block of memory to
//! every pedal at activation and each line borrows a slice of it for the
//! duration of a call. That is why a line carries its own length instead of
//! trusting the slice it is given.

use vstd::prelude::*;

verus! {

/// The shortest line a delay can be; shorter requests are lengthened.
pub const MINIMUM_LENGTH: usize = 8;

/// How much of a buffer of `available` samples a line asked for `requested`
/// samples claims.
pub open spec fn claimed_length(requested: int, available: int) -> int {
    let fitted = if requested < available { requested } else { available };
    if fitted < MINIMUM_LENGTH { MINIMUM_LENGTH as int } else { fitted }
}

/// A circular delay line: where the next sample goes, and how many samples
/// of the borrowed buffer it owns.
#[derive(Clone, Copy)]
pub struct DelayLine {
    write_index: usize,
    length: usize,
}

impl DelayLine {
    /// Number of samples the line owns.
    pub closed spec fn spec_length(&self) -> nat {
        self.length as nat
    }

    /// Where the next sample will be written.
    pub closed spec fn cursor(&self) -> nat {
        self.write_index as nat
    }

    /// The cursor always stays inside the line.
    pub closed spec fn wf(&self) -> bool {
        self.length == 0 || self.write_index < self.length
    }

    /// The slot that holds the sample written `delay` writes ago.
    pub closed spec fn tap_index(&self, delay: int) -> int {
        (self.write_index + self.length - delay) % (self.length as int)
    }

    /// The line after one more sample went in.
    pub closed spec fn advanced(&self) -> DelayLine {
        if self.length == 0 {
            *self
        } else if self.write_index + 1 >= self.length {
            DelayLine { write_index: 0, length: self.length }
        } else {
            DelayLine { write_index: (self.write_index + 1) as usize, length: self.length }
        }
    }

    /// A line that owns nothing yet: every write to it is ignored until it is
    /// prepared.
    pub fn new() -> (line: DelayLine)
        ensures
            line.wf(),
            line.cursor() == 0,
            line.spec_length() == 0,
    {
        DelayLine { write_index: 0, length: 0 }
    }

    /// Claims `length` samples of `buffer`, never fewer than
    /// [`MINIMUM_LENGTH`] nor more than the buffer holds, and clears them.
    pub fn prepare<T: Copy>(&mut self, buffer: &mut [T], length: usize, silence: T)
        requires
            old(buffer)@.len() >= MINIMUM_LENGTH,
        ensures
            final(self).wf(),
            final(self).cursor() == 0,
            final(self).spec_length() == claimed_length(length as int, old(buffer)@.len() as int),
            final(buffer)@.len() == old(buffer)@.len(),
            forall|i: int| 0 <= i < final(self).spec_length() ==> final(buffer)@[i] == silence,
            forall|i: int| final(self).spec_length() <= i < old(buffer)@.len() ==> final(buffer)@[i] == old(buffer)@[i],
    {
        let available = buffer.len();
        let claimed = if length < available { length } else { available };
        self.length = if claimed < MINIMUM_LENGTH { MINIMUM_LENGTH } else { claimed };
        self.write_index = 0;
        fill_prefix(buffer, self.length, silence);
    }

    /// Silences the line and rewinds it.
    pub fn clear<T: Copy>(&mut self, buffer: &mut [T], silence: T)
        requires
            old(buffer)@.len() >= old(self).spec_length(),
        ensures
            final(self).wf(),
            final(self).cursor() == 0,
            final(self).spec_length() == old(self).spec_length(),
            final(buffer)@.len() == old(buffer)@.len(),
            forall|i: int| 0 <= i < old(self).spec_length() ==> final(buffer)@[i] == silence,
            forall|i: int| old(self).spec_length() <= i < old(buffer)@.len() ==> final(buffer)@[i] == old(buffer)@[i],
    {
        fill_prefix(buffer, self.length, silence);
        self.write_index = 0;
    }

    pub fn length(&self) -> (length: usize)
        ensures
            length == self.spec_length(),
    {
        self.length
    }

    /// Stores `clean(value)` and moves the cursor on, wrapping at the end of
    /// the line. `clean` is what the line does to a sample on its way in (the
    /// audio lines flush non-finite and denormal values there). A line that
    /// owns nothing ignores the write and does not call `clean`.
    pub fn write<T, F: Fn(T) -> T>(&mut self, buffer: &mut [T], value: T, clean: F)
        requires
            old(self).wf(),
            old(buffer)@.len() >= old(self).spec_length(),
            old(self).spec_length() > 0 ==> clean.requires((value,)),
        ensures
            *final(self) == old(self).advanced(),
            final(self).wf(),
            old(self).spec_length() == 0 ==> final(buffer)@ == old(buffer)@,
            old(self).spec_length() > 0 ==> exists|stored: T|
                #[trigger] clean.ensures((value,), stored) && final(buffer)@ == old(buffer)@.update(
                    old(self).cursor() as int,
                    stored,
                ),
    {
        if self.length == 0 {
            return;
        }
        let stored = clean(value);
        buffer[self.write_index] = stored;
        self.write_index += 1;
        if self.write_index >= self.length {
            self.write_index = 0;
        }
    }

    /// The sample written `delay` writes ago (`delay == 1` is the newest;
    /// `delay == 0` and `delay == length` both name the oldest slot, the one
    /// the next write replaces).
    pub fn at<T: Copy>(&self, buffer: &[T], delay: usize) -> (sample: T)
        requires
            self.wf(),
            self.spec_length() > 0,
            delay <= self.cursor() + self.spec_length(),
            buffer@.len() >= self.spec_length(),
        ensures
            0 <= self.tap_index(delay as int) < self.spec_length(),
            sample == buffer@[self.tap_index(delay as int)],
    {
        let index = if delay <= self.write_index {
            self.write_index - delay
        } else {
            self.length - (delay - self.write_index)
        };
        proof {
            let len = self.length as int;
            let wi = self.write_index as int;
            let d = delay as int;
            if d <= wi {
                assert((wi + len - d) % len == wi - d) by {
                    vstd::arithmetic::div_mod::lemma_mod_add_multiples_vanish(wi - d, len);
                    vstd::arithmetic::div_mod::lemma_small_mod((wi - d) as nat, len as nat);
                }
            } else {
                vstd::arithmetic::div_mod::lemma_small_mod((wi + len - d) as nat, len as nat);
            }
        }
        buffer[index]
    }
}

impl Default for DelayLine {
    /// The same line as [`DelayLine::new`]: empty and rewound.
    fn default() -> (line: DelayLine)
        ensures
            line.wf(),
            line.cursor() == 0,
            line.spec_length() == 0,
    {
        DelayLine::new()
    }
}

/// What a line returns is what was written a known number of writes ago:
/// after one more write, the newest tap holds the sample just stored and
/// every older tap holds what the tap one step newer held before.
pub proof fn lemma_write_moves_every_tap_back<T>(line: DelayLine, buffer: Seq<T>, value: T)
    requires
        line.wf(),
        line.spec_length() > 0,
        buffer.len() >= line.spec_length(),
    ensures
        ({
            let after = line.advanced();
            let written = buffer.update(line.cursor() as int, value);
            &&& after.wf()
            &&& after.spec_length() == line.spec_length()
            &&& 0 <= after.tap_index(1) < buffer.len()
            &&& written[after.tap_index(1)] == value
            &&& forall|delay: int| 1 <= delay < line.spec_length() ==> {
                &&& 0 <= line.tap_index(delay) < buffer.len()
                &&& after.tap_index(delay + 1) == line.tap_index(delay)
                &&& #[trigger] written[after.tap_index(delay + 1)] == buffer[line.tap_index(delay)]
            }
        }),
{
    let after = line.advanced();
    let len = line.length as int;
    let wi = line.write_index as int;
    let next = after.write_index as int;
    assert(next == (wi + 1) % len) by {
        if wi + 1 >= len {
            vstd::arithmetic::div_mod::lemma_mod_self_0(len);
        } else {
            vstd::arithmetic::div_mod::lemma_small_mod((wi + 1) as nat, len as nat);
        }
    }
    assert(after.tap_index(1) == wi) by {
        if wi + 1 >= len {
            vstd::arithmetic::div_mod::lemma_small_mod((len - 1) as nat, len as nat);
        } else {
            vstd::arithmetic::div_mod::lemma_mod_add_multiples_vanish(wi, len);
            vstd::arithmetic::div_mod::lemma_small_mod(wi as nat, len as nat);
        }
    }
    assert forall|delay: int| 1 <= delay < line.spec_length() implies {
        &&& 0 <= line.tap_index(delay) < buffer.len()
        &&& after.tap_index(delay + 1) == line.tap_index(delay)
        &&& buffer.update(wi, value)[#[trigger] after.tap_index(delay + 1)] == buffer[line.tap_index(delay)]
    } by {
        let older = line.tap_index(delay);
        assert(after.tap_index(delay + 1) == older) by {
            if wi + 1 >= len {
                assert(next == 0);
                assert(after.tap_index(delay + 1) == (len - 1 - delay) % len);
                assert(older == (len + (len - 1 - delay)) % len);
                vstd::arithmetic::div_mod::lemma_mod_add_multiples_vanish(len - 1 - delay, len);
            } else {
                assert(next == wi + 1);
            }
        }
        assert(older != wi) by {
            if delay <= wi {
                vstd::arithmetic::div_mod::lemma_mod_add_multiples_vanish(wi - delay, len);
                vstd::arithmetic::div_mod::lemma_small_mod((wi - delay) as nat, len as nat);
            } else {
                vstd::arithmetic::div_mod::lemma_small_mod((wi + len - delay) as nat, len as nat);
            }
        }
    }
}

/// Sets the first `count` samples of `buffer` to `silence`.
pub(crate) fn fill_prefix<T: Copy>(buffer: &mut [T], count: usize, silence: T)
    requires
        count <= old(buffer)@.len(),
    ensures
        final(buffer)@.len() == old(buffer)@.len(),
        forall|i: int| 0 <= i < count ==> final(buffer)@[i] == silence,
        forall|i: int| count <= i < old(buffer)@.len() ==> final(buffer)@[i] == old(buffer)@[i],
{
    let mut index: usize = 0;
    while index < count
        invariant
            0 <= index <= count,
            count <= old(buffer)@.len(),
            buffer@.len() == old(buffer)@.len(),
            forall|i: int| 0 <= i < index ==> buffer@[i] == silence,
            forall|i: int| index <= i < old(buffer)@.len() ==> buffer@[i] == old(buffer)@[i],
        decreases count - index,
    {
        buffer[index] = silence;
        index += 1;
    }
}

} // verus!
