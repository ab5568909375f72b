//! The decisions of the thread that hands extension callbacks to Arma: a
//! message Arma cannot take is skipped, and one it refused is offered again
//! until Arma accepts it.

use vstd::prelude::*;

use crate::text::chars_of;

verus! {

/// What the callback thread does next with a message
#[derive(Debug, Clone, Copy, PartialEq, Eq, Structural)]
pub enum CallbackStep {
    /// Drop the message: one of its texts holds a zero byte, so it cannot be a C string
    Skip,
    /// Call Arma's callback with the message (again)
    Call,
    /// Arma accepted the message
    Done,
}

/// Whether the text holds the character `'\0'`
fn has_zero(s: &str) -> (r: bool)
    ensures
        r == s@.contains('\0'),
{
    let c = chars_of(s);
    let mut k: usize = 0;
    while k < c.len()
        invariant
            k <= c@.len(),
            c@ == s@,
            forall|j: int| 0 <= j < k ==> c@[j] != '\0',
        decreases c@.len() - k,
    {
        if c[k] == '\0' {
            assert(c@[k as int] == '\0');
            return true;
        }
        k = k + 1;
    }
    false
}

/// The next step for one message, given Arma's answer to the last call of the
/// callback (`None` before the first): a message with a zero byte in its name,
/// function or data is skipped; otherwise the callback is called until Arma
/// answers with a code that is not negative.
pub fn callback_step(name: &str, func: &str, data: &str, answer: Option<i32>) -> (r: CallbackStep)
    ensures
        r == if name@.contains('\0') || func@.contains('\0') || data@.contains('\0') {
            CallbackStep::Skip
        } else {
            match answer {
                None => CallbackStep::Call,
                Some(c) => if c < 0 {
                    CallbackStep::Call
                } else {
                    CallbackStep::Done
                },
            }
        },
{
    if has_zero(name) || has_zero(func) || has_zero(data) {
        CallbackStep::Skip
    } else {
        match answer {
            None => CallbackStep::Call,
            Some(c) => if c < 0 {
                CallbackStep::Call
            } else {
                CallbackStep::Done
            },
        }
    }
}

} // verus!
