//! The rules of the foreign-call boundary: validation of the integer flags
//! that callers pass, the status codes that calls return, and the slot that
//! keeps the message of the last failure for the caller to read.

use vstd::prelude::*;

verus! {

/// Status of a call that succeeded.
pub const STATUS_OK: i32 = 0;

/// Status of a call that failed inside the beam model or on the device.
pub const STATUS_CAPABILITY: i32 = 1;

/// Status of a call that was refused because its arguments were malformed.
pub const STATUS_VALIDATION: i32 = 2;

/// Status of a call whose work failed fatally and was intercepted.
pub const STATUS_FATAL: i32 = -1;

/// Why a call at the boundary failed.
#[derive(PartialEq, Eq, Structural, Clone, Copy, Debug)]
pub enum BoundaryError {
    /// The number of gains per tile was neither 16 nor 32.
    NumAmps,
    /// The flag for normalising to zenith was neither 0 nor 1.
    NormToZenith,
    /// The flag for IAU order was neither 0 nor 1.
    IauOrder,
    /// An array did not hold as many values as its shape asks for.
    ArraySize,
    /// A path was not valid UTF-8.
    Path,
    /// The batch is too large to be laid out in memory.
    TooLarge,
    /// The beam model or the device reported a failure.
    Capability,
}

/// Whether the error comes from malformed arguments, found before any work.
pub open spec fn is_validation(e: BoundaryError) -> bool {
    !(e is TooLarge || e is Capability)
}

impl BoundaryError {
    /// The status code of a call that failed with this error.
    pub fn status_code(&self) -> (r: i32)
        ensures
            is_validation(*self) ==> r == STATUS_VALIDATION,
            !is_validation(*self) ==> r == STATUS_CAPABILITY,
    {
        match self {
            BoundaryError::TooLarge | BoundaryError::Capability => STATUS_CAPABILITY,
            _ => STATUS_VALIDATION,
        }
    }

    /// The message that the error slot keeps for this error. The beam model's
    /// own failures bring their own message instead.
    pub fn message(&self) -> &'static str {
        match self {
            BoundaryError::NumAmps => "A value other than 16 or 32 was used for num_amps",
            BoundaryError::NormToZenith => "A value other than 0 or 1 was used for norm_to_zenith",
            BoundaryError::IauOrder => "A value other than 0 or 1 was used for iau_order",
            BoundaryError::ArraySize => "An array does not hold as many values as its shape needs",
            BoundaryError::Path => "The path is not valid UTF-8",
            BoundaryError::TooLarge => "The batch is too large to be laid out in memory",
            BoundaryError::Capability => "The beam calculation failed",
        }
    }
}

/// How a call at the boundary ended.
pub enum CallOutcome {
    /// The call did its work.
    Done,
    /// The call failed and reported why.
    Failed(BoundaryError),
    /// The call's work failed fatally; the failure was intercepted.
    Fatal,
}

/// The status code that a call with this outcome returns.
pub fn status_code(outcome: &CallOutcome) -> (r: i32)
    ensures
        r == match *outcome {
            CallOutcome::Done => STATUS_OK,
            CallOutcome::Failed(e) => if is_validation(e) {
                STATUS_VALIDATION
            } else {
                STATUS_CAPABILITY
            },
            CallOutcome::Fatal => STATUS_FATAL,
        },
{
    match outcome {
        CallOutcome::Done => STATUS_OK,
        CallOutcome::Failed(e) => e.status_code(),
        CallOutcome::Fatal => STATUS_FATAL,
    }
}

/// The boolean that a flag stands for: 0 is false, 1 is true, and no other
/// value is accepted.
pub open spec fn flag_value(v: u8) -> Option<bool> {
    if v == 0 {
        Some(false)
    } else if v == 1 {
        Some(true)
    } else {
        None
    }
}

/// Reads a flag that must be 0 or 1.
pub fn parse_flag(v: u8) -> (r: Option<bool>)
    ensures
        r == flag_value(v),
{
    match v {
        0 => Some(false),
        1 => Some(true),
        _ => None,
    }
}

/// Reads the number of gains per tile, which must be 16 or 32.
pub fn parse_num_amps(n: u32) -> (r: Result<usize, BoundaryError>)
    ensures
        (n == 16 || n == 32) ==> r == Ok::<usize, BoundaryError>(n as usize),
        !(n == 16 || n == 32) ==> r == Err::<usize, BoundaryError>(BoundaryError::NumAmps),
{
    match n {
        16 | 32 => Ok(n as usize),
        _ => Err(BoundaryError::NumAmps),
    }
}

/// The options of a single-tile beam calculation, once validated.
#[derive(PartialEq, Eq, Structural, Clone, Copy, Debug)]
pub struct CalcOptions {
    pub num_amps: usize,
    pub norm_to_zenith: bool,
    pub iau_order: bool,
}

/// Validates the flags of a single-tile calculation, in this order: the
/// number of gains, the zenith normalisation flag, the IAU order flag. The
/// first that is malformed decides the error.
pub fn check_calc_options(num_amps: u32, norm_to_zenith: u8, iau_order: u8) -> (r: Result<
    CalcOptions,
    BoundaryError,
>)
    ensures
        !(num_amps == 16 || num_amps == 32) ==> r == Err::<CalcOptions, BoundaryError>(
            BoundaryError::NumAmps,
        ),
        (num_amps == 16 || num_amps == 32) && flag_value(norm_to_zenith) is None ==> r == Err::<
            CalcOptions,
            BoundaryError,
        >(BoundaryError::NormToZenith),
        (num_amps == 16 || num_amps == 32) && flag_value(norm_to_zenith) is Some && flag_value(
            iau_order,
        ) is None ==> r == Err::<CalcOptions, BoundaryError>(BoundaryError::IauOrder),
        (num_amps == 16 || num_amps == 32) && flag_value(norm_to_zenith) is Some && flag_value(
            iau_order,
        ) is Some ==> r == Ok::<CalcOptions, BoundaryError>(
            (CalcOptions {
                num_amps: num_amps as usize,
                norm_to_zenith: flag_value(norm_to_zenith)->Some_0,
                iau_order: flag_value(iau_order)->Some_0,
            }),
        ),
{
    let n = match parse_num_amps(num_amps) {
        Ok(n) => n,
        Err(e) => return Err(e),
    };
    let norm = match parse_flag(norm_to_zenith) {
        Some(b) => b,
        None => return Err(BoundaryError::NormToZenith),
    };
    let iau = match parse_flag(iau_order) {
        Some(b) => b,
        None => return Err(BoundaryError::IauOrder),
    };
    Ok(CalcOptions { num_amps: n, norm_to_zenith: norm, iau_order: iau })
}

/// Keeps the message of the last failure until the caller reads it.
pub struct ErrorSlot {
    pub message: Option<Vec<u8>>,
}

/// The length that the caller is told to allocate for the message: its bytes
/// and a terminating zero, or 0 when there is no message. A length that does
/// not fit in an `i32` is reported as `i32::MAX`.
pub open spec fn reported_length(message: Option<Seq<u8>>) -> i32 {
    match message {
        None => 0,
        Some(m) => if m.len() + 1 <= i32::MAX {
            (m.len() + 1) as i32
        } else {
            i32::MAX
        },
    }
}

impl ErrorSlot {
    /// An empty slot.
    pub fn new() -> (r: ErrorSlot)
        ensures
            r.message is None,
    {
        ErrorSlot { message: None }
    }

    /// Replaces the kept message.
    pub fn update(&mut self, message: Vec<u8>)
        ensures
            final(self).message == Some(message),
    {
        self.message = Some(message);
    }

    /// The length to allocate for reading the message.
    pub fn length(&self) -> (r: i32)
        ensures
            r == reported_length(
                match self.message {
                    Some(m) => Some(m@),
                    None => None,
                },
            ),
    {
        match &self.message {
            None => 0,
            Some(m) => {
                if m.len() < i32::MAX as usize {
                    (m.len() + 1) as i32
                } else {
                    i32::MAX
                }
            },
        }
    }

    /// Takes the message out of the slot and writes it, followed by a zero
    /// byte, to the start of `buffer`. Returns the number of message bytes
    /// written; 0 when there was no message; -1 when the message and its
    /// zero do not fit in `buffer`, in which case the message is dropped and
    /// `buffer` is left as it was.
    pub fn take_into(&mut self, buffer: &mut [u8]) -> (r: i32)
        ensures
            final(self).message is None,
            match old(self).message {
                None => r == 0 && final(buffer)@ == old(buffer)@,
                Some(m) => if m@.len() < old(buffer)@.len() && m@.len() <= i32::MAX {
                    &&& r == m@.len() as i32
                    &&& final(buffer)@ == m@ + seq![0u8] + old(buffer)@.subrange(
                        m@.len() + 1int,
                        old(buffer)@.len() as int,
                    )
                } else {
                    r == -1 && final(buffer)@ == old(buffer)@
                },
            },
    {
        let taken = self.message.take();
        match taken {
            None => 0,
            Some(m) => {
                if m.len() >= buffer.len() || m.len() > i32::MAX as usize {
                    return -1;
                }
                let mut i: usize = 0;
                while i < m.len()
                    invariant
                        i <= m@.len(),
                        m@.len() < buffer@.len(),
                        buffer@.len() == old(buffer)@.len(),
                        forall|k: int| 0 <= k < i ==> buffer@[k] == m@[k],
                        forall|k: int| i <= k < buffer@.len() ==> buffer@[k] == old(buffer)@[k],
                    decreases m.len() - i,
                {
                    buffer[i] = m[i];
                    i = i + 1;
                }
                buffer[m.len()] = 0;
                assert(buffer@ =~= m@ + seq![0u8] + old(buffer)@.subrange(
                    m@.len() + 1int,
                    old(buffer)@.len() as int,
                ));
                m.len() as i32
            },
        }
    }
}

} // verus!
