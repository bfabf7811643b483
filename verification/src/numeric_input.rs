use vstd::prelude::*;
use crate::text::{is_ascii_digit, pop_char, push_char};

verus! {

/// Largest value a MIDI data byte can carry.
pub const MAX_MIDI_VALUE: u8 = 127;
/// Digits a numeric entry accepts at most.
pub const NUMERIC_INPUT_MAX_DIGITS: usize = 3;

/// What a numeric entry sets when it is confirmed.
#[derive(Clone, Copy, Debug, PartialEq, Eq, Structural)]
pub enum NumericInputTarget {
    CcNumber,
    CcValue,
}

/// The decimal value of a run of ASCII digits.
pub open spec fn spec_decimal_value(digits: Seq<char>) -> nat
    decreases digits.len(),
{
    if digits.len() == 0 {
        0
    } else {
        spec_decimal_value(digits.drop_last()) * 10 + (digits.last() as nat - '0' as nat) as nat
    }
}

/// The MIDI value that `buffer` confirms: none when it is empty, else its
/// decimal value clamped to 127.
pub open spec fn spec_confirmed_value(buffer: Seq<char>) -> Option<u8> {
    if buffer.len() == 0 {
        None
    } else if spec_decimal_value(buffer) > MAX_MIDI_VALUE {
        Some(MAX_MIDI_VALUE)
    } else {
        Some(spec_decimal_value(buffer) as u8)
    }
}

/// Digits typed for a controller number or a controller value (at most three).
#[derive(Clone, Debug, PartialEq, Eq)]
pub struct NumericInput {
    target: NumericInputTarget,
    buffer: String,
}

impl NumericInput {
    /// What this entry sets.
    pub closed spec fn spec_target(&self) -> NumericInputTarget {
        self.target
    }

    /// The digits typed so far.
    pub closed spec fn spec_buffer(&self) -> Seq<char> {
        self.buffer@
    }

    /// At most three characters, all of them ASCII digits.
    pub open spec fn wf(&self) -> bool {
        &&& self.spec_buffer().len() <= NUMERIC_INPUT_MAX_DIGITS
        &&& forall|i: int| 0 <= i < self.spec_buffer().len() ==> is_ascii_digit(#[trigger] self.spec_buffer()[i])
    }

    /// An empty entry for `target`.
    pub fn new(target: NumericInputTarget) -> (input: Self)
        ensures
            input.wf(),
            input.spec_target() == target,
            input.spec_buffer() == Seq::<char>::empty(),
    {
        NumericInput { target, buffer: String::new() }
    }

    /// What this entry sets.
    pub fn target(&self) -> (target: NumericInputTarget)
        ensures
            target == self.spec_target(),
    {
        self.target
    }

    /// The digits typed so far.
    pub fn buffer(&self) -> (buffer: &str)
        ensures
            buffer@ == self.spec_buffer(),
    {
        self.buffer.as_str()
    }

    /// Appends `digit` when it is an ASCII digit and fewer than three digits were typed;
    /// every other key is ignored.
    pub fn push(&mut self, digit: char)
        requires
            old(self).wf(),
        ensures
            final(self).wf(),
            final(self).spec_target() == old(self).spec_target(),
            final(self).spec_buffer() == if is_ascii_digit(digit) && old(self).spec_buffer().len()
                < NUMERIC_INPUT_MAX_DIGITS {
                old(self).spec_buffer().push(digit)
            } else {
                old(self).spec_buffer()
            },
    {
        let len = self.buffer.as_str().unicode_len();
        if '0' <= digit && digit <= '9' && len < NUMERIC_INPUT_MAX_DIGITS {
            push_char(&mut self.buffer, digit);
            proof {
                let b = self.spec_buffer();
                assert forall|i: int| 0 <= i < b.len() implies is_ascii_digit(#[trigger] b[i]) by {
                    if i < b.len() - 1 {
                        assert(b[i] == old(self).spec_buffer()[i]);
                    }
                }
            }
        }
    }

    /// Removes the last digit, if any.
    pub fn backspace(&mut self)
        requires
            old(self).wf(),
        ensures
            final(self).wf(),
            final(self).spec_target() == old(self).spec_target(),
            final(self).spec_buffer() == if old(self).spec_buffer().len() == 0 {
                old(self).spec_buffer()
            } else {
                old(self).spec_buffer().drop_last()
            },
    {
        let _ = pop_char(&mut self.buffer);
        proof {
            let b = self.spec_buffer();
            assert forall|i: int| 0 <= i < b.len() implies is_ascii_digit(#[trigger] b[i]) by {
                assert(b[i] == old(self).spec_buffer()[i]);
            }
        }
    }

    /// The value to send: `None` for an empty entry, else the typed number
    /// clamped to 127.
    pub fn confirmed_value(&self) -> (value: Option<u8>)
        requires
            self.wf(),
        ensures
            value == spec_confirmed_value(self.spec_buffer()),
    {
        let len = self.buffer.as_str().unicode_len();
        if len == 0 {
            return None;
        }
        let mut total: u16 = 0;
        let mut i: usize = 0;
        while i < len
            invariant
                self.wf(),
                len == self.spec_buffer().len(),
                i <= len,
                total as nat == spec_decimal_value(self.spec_buffer().subrange(0, i as int)),
                total < 1000,
            decreases len - i,
        {
            let c = self.buffer.as_str().get_char(i);
            proof {
                let b = self.spec_buffer();
                assert(is_ascii_digit(b[i as int]));
                assert(b.subrange(0, i + 1).drop_last() =~= b.subrange(0, i as int));
                assert(spec_decimal_value(b.subrange(0, i as int)) < 100) by {
                    lemma_decimal_value_bound(b.subrange(0, i as int));
                }
            }
            total = total * 10 + (c as u32 - '0' as u32) as u16;
            i = i + 1;
        }
        assert(self.spec_buffer().subrange(0, len as int) =~= self.spec_buffer());
        if total > MAX_MIDI_VALUE as u16 {
            Some(MAX_MIDI_VALUE)
        } else {
            Some(total as u8)
        }
    }
}

/// A run of fewer than three ASCII digits is below 100.
proof fn lemma_decimal_value_bound(digits: Seq<char>)
    requires
        digits.len() < 3,
        forall|i: int| 0 <= i < digits.len() ==> is_ascii_digit(#[trigger] digits[i]),
    ensures
        digits.len() == 0 ==> spec_decimal_value(digits) == 0,
        digits.len() <= 1 ==> spec_decimal_value(digits) < 10,
        spec_decimal_value(digits) < 100,
    decreases digits.len(),
{
    if digits.len() > 0 {
        let prefix = digits.drop_last();
        assert forall|i: int| 0 <= i < prefix.len() implies is_ascii_digit(#[trigger] prefix[i]) by {
            assert(prefix[i] == digits[i]);
        }
        lemma_decimal_value_bound(prefix);
        assert(is_ascii_digit(digits[digits.len() - 1]));
    }
}

} // verus!
