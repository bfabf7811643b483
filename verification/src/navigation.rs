use vstd::prelude::*;

verus! {

/// The decimal value of an ASCII digit, `None` for every other character.
pub open spec fn spec_decimal_digit(c: char) -> Option<nat> {
    if '0' <= c && c <= '9' {
        Some((c as nat - '0' as nat) as nat)
    } else {
        None
    }
}

/// `x * 10 + digit`, clamped at `usize::MAX`.
pub open spec fn spec_append_digit(x: nat, digit: nat) -> nat {
    if x * 10 + digit > usize::MAX {
        usize::MAX as nat
    } else {
        x * 10 + digit
    }
}

/// `value`, clamped into the range of `isize`.
pub open spec fn spec_clamp_isize(value: int) -> int {
    if value > isize::MAX {
        isize::MAX as int
    } else if value < isize::MIN {
        isize::MIN as int
    } else {
        value
    }
}

/// The value of a parsed decimal digit character, as the exec code computes it.
pub fn decimal_digit(c: char) -> (digit: Option<usize>)
    ensures
        match spec_decimal_digit(c) {
            Some(d) => digit == Some(d as usize),
            None => digit is None,
        },
{
    if '0' <= c && c <= '9' {
        Some((c as u32 - '0' as u32) as usize)
    } else {
        None
    }
}

/// A vim-style count prefix typed before a motion key (`10j`).
///
/// A count never starts with `0`, and digits past the range of `usize`
/// saturate instead of overflowing.
pub struct NavigationCount {
    pub value: Option<usize>,
}

impl NavigationCount {
    /// An empty count (no digit typed yet).
    pub fn default() -> (count: Self)
        ensures
            count.value is None,
    {
        NavigationCount { value: None }
    }

    /// Feeds one typed character. Returns whether it was consumed as part of the count:
    /// non-digits are refused, and so is a leading `0`.
    pub fn push_digit(&mut self, digit: char) -> (accepted: bool)
        ensures
            accepted <==> (spec_decimal_digit(digit) is Some && !(old(self).value is None
                && spec_decimal_digit(digit) == Some(0nat))),
            accepted ==> final(self).value == Some(spec_append_digit(
                match old(self).value {
                    Some(v) => v as nat,
                    None => 0nat,
                },
                spec_decimal_digit(digit).unwrap(),
            ) as usize),
            !accepted ==> final(self).value == old(self).value,
    {
        let d = match decimal_digit(digit) {
            Some(d) => d,
            None => return false,
        };
        if self.value.is_none() && d == 0 {
            return false;
        }
        let current: usize = match self.value {
            Some(v) => v,
            None => 0,
        };
        let next: usize = if current > (usize::MAX - d) / 10 {
            usize::MAX
        } else {
            current * 10 + d
        };
        self.value = Some(next);
        true
    }

    /// The count typed so far, if any.
    pub fn value(&self) -> (value: Option<usize>)
        ensures
            value == self.value,
    {
        self.value
    }

    /// Consumes the count and scales `unit` by it (by 1 when no count was typed),
    /// saturating at the bounds of `isize`.
    pub fn take_delta(&mut self, unit: isize) -> (delta: isize)
        ensures
            final(self).value is None,
            delta == spec_clamp_isize(unit * match old(self).value {
                Some(count) => if count > isize::MAX { isize::MAX as int } else { count as int },
                None => 1int,
            }),
    {
        let count: usize = match self.value {
            Some(c) => c,
            None => 1,
        };
        self.value = None;
        let count: isize = if count > isize::MAX as usize {
            isize::MAX
        } else {
            count as isize
        };
        proof {
            let a = unit as int;
            let b = count as int;
            assert(-0x8000_0000_0000_0000int <= a <= 0x7fff_ffff_ffff_ffffint);
            assert(0 <= b <= 0x7fff_ffff_ffff_ffffint);
            assert(-0x4000_0000_0000_0000_0000_0000_0000_0000int <= a * b
                <= 0x4000_0000_0000_0000_0000_0000_0000_0000int) by (nonlinear_arith)
                requires
                    -0x8000_0000_0000_0000int <= a <= 0x7fff_ffff_ffff_ffffint,
                    0 <= b <= 0x7fff_ffff_ffff_ffffint,
            ;
        }
        let product: i128 = (unit as i128) * (count as i128);
        if product > isize::MAX as i128 {
            isize::MAX
        } else if product < isize::MIN as i128 {
            isize::MIN
        } else {
            product as isize
        }
    }

    /// Forgets any count typed so far.
    pub fn clear(&mut self)
        ensures
            final(self).value is None,
    {
        self.value = None;
    }
}

} // verus!
