//! Feature flags for RV Extensions
//!
//! <https://community.bistudio.com/wiki/Extensions#Feature_Flags>

use vstd::prelude::*;

verus! {

/// RVExtensionContext takes const void** as argument, instead of the default const char**,
/// and arguments will be passed in their custom types
pub const RV_CONTEXT_ARGUMENTS_VOID_PTR: u64 = 1;

/// RVExtensionContext will retrieve a full Stacktrace
pub const RV_CONTEXT_STACK_TRACE: u64 = 2;

/// RVExtensionContext will not be called automatically. It must be manually requested via
/// RVExtensionRequestContext (This improves performance when context is not needed).
pub const RV_CONTEXT_NO_DEFAULT_CALL: u64 = 4;

/// Feature flags for RV Extensions
#[derive(Debug, Clone, Copy, PartialEq, Eq, Structural, PartialOrd, Ord, Hash)]
pub struct FeatureFlags {
    context_arguments_void_ptr: bool,
    context_stack_trace: bool,
}

impl Default for FeatureFlags {
    fn default() -> (r: Self)
        ensures
            !r.spec_context_arguments_void_ptr(),
            !r.spec_context_stack_trace(),
    {
        FeatureFlags { context_arguments_void_ptr: false, context_stack_trace: false }
    }
}

/// The bits that Arma reads for a pair of flags.
pub open spec fn spec_flag_bits(arguments_void_ptr: bool, stack_trace: bool) -> u64 {
    (RV_CONTEXT_NO_DEFAULT_CALL
        + (if arguments_void_ptr { RV_CONTEXT_ARGUMENTS_VOID_PTR } else { 0 })
        + (if stack_trace { RV_CONTEXT_STACK_TRACE } else { 0 })) as u64
}

impl FeatureFlags {
    /// Whether the arguments flag is set
    pub closed spec fn spec_context_arguments_void_ptr(&self) -> bool {
        self.context_arguments_void_ptr
    }

    /// Whether the stack trace flag is set
    pub closed spec fn spec_context_stack_trace(&self) -> bool {
        self.context_stack_trace
    }

    /// Two flag sets with the same flags are the same value
    pub proof fn lemma_flags_ext(a: Self, b: Self)
        requires
            a.spec_context_arguments_void_ptr() == b.spec_context_arguments_void_ptr(),
            a.spec_context_stack_trace() == b.spec_context_stack_trace(),
        ensures
            a == b,
    {
    }

    /// Set the context_arguments_void_ptr flag
    pub fn set_context_arguments_void_ptr(&mut self, value: bool)
        ensures
            final(self).spec_context_arguments_void_ptr() == value,
            final(self).spec_context_stack_trace() == old(self).spec_context_stack_trace(),
    {
        self.context_arguments_void_ptr = value;
    }

    /// Set the context_stack_trace flag
    pub fn set_context_stack_trace(&mut self, value: bool)
        ensures
            final(self).spec_context_stack_trace() == value,
            final(self).spec_context_arguments_void_ptr()
                == old(self).spec_context_arguments_void_ptr(),
    {
        self.context_stack_trace = value;
    }

    /// Get the context_arguments_void_ptr flag
    pub fn context_arguments_void_ptr(&self) -> (r: bool)
        ensures
            r == self.spec_context_arguments_void_ptr(),
    {
        self.context_arguments_void_ptr
    }

    /// Get the context_stack_trace flag
    pub fn context_stack_trace(&self) -> (r: bool)
        ensures
            r == self.spec_context_stack_trace(),
    {
        self.context_stack_trace
    }

    /// Create a new FeatureFlags from the given bits
    pub fn from_bits(bits: u64) -> (r: Self)
        ensures
            r.spec_context_arguments_void_ptr() == (bits & RV_CONTEXT_ARGUMENTS_VOID_PTR != 0),
            r.spec_context_stack_trace() == (bits & RV_CONTEXT_STACK_TRACE != 0),
    {
        let mut flags = Self::default();
        flags.set_context_arguments_void_ptr(bits & RV_CONTEXT_ARGUMENTS_VOID_PTR != 0);
        flags.set_context_stack_trace(bits & RV_CONTEXT_STACK_TRACE != 0);
        flags
    }

    /// Get the bits of the FeatureFlags
    pub fn as_bits(&self) -> (r: u64)
        ensures
            r == spec_flag_bits(
                self.spec_context_arguments_void_ptr(),
                self.spec_context_stack_trace(),
            ),
    {
        let mut bits = RV_CONTEXT_NO_DEFAULT_CALL;
        if self.context_arguments_void_ptr() {
            bits = bits | RV_CONTEXT_ARGUMENTS_VOID_PTR;
            assert(4u64 | 1u64 == 5u64) by (bit_vector);
        }
        if self.context_stack_trace() {
            let prev = bits;
            bits = bits | RV_CONTEXT_STACK_TRACE;
            assert(4u64 | 2u64 == 6u64) by (bit_vector);
            assert(5u64 | 2u64 == 7u64) by (bit_vector);
        }
        bits
    }
}

/// Reading back the bits of a flag set gives the same flag set.
pub proof fn lemma_from_bits_as_bits(flags: FeatureFlags)
    ensures
        ({
            let b = spec_flag_bits(
                flags.spec_context_arguments_void_ptr(),
                flags.spec_context_stack_trace(),
            );
            &&& (b & RV_CONTEXT_ARGUMENTS_VOID_PTR != 0) == flags.spec_context_arguments_void_ptr()
            &&& (b & RV_CONTEXT_STACK_TRACE != 0) == flags.spec_context_stack_trace()
        }),
{
    assert(4u64 & 1u64 == 0u64) by (bit_vector);
    assert(4u64 & 2u64 == 0u64) by (bit_vector);
    assert(5u64 & 1u64 == 1u64) by (bit_vector);
    assert(5u64 & 2u64 == 0u64) by (bit_vector);
    assert(6u64 & 1u64 == 0u64) by (bit_vector);
    assert(6u64 & 2u64 == 2u64) by (bit_vector);
    assert(7u64 & 1u64 == 1u64) by (bit_vector);
    assert(7u64 & 2u64 == 2u64) by (bit_vector);
}

/// The bits written for any flag set always carry `RV_CONTEXT_NO_DEFAULT_CALL`,
/// and taking flags from any bits keeps exactly the two flag bits.
pub proof fn lemma_as_bits_from_bits(bits: u64)
    ensures
        spec_flag_bits(
            bits & RV_CONTEXT_ARGUMENTS_VOID_PTR != 0,
            bits & RV_CONTEXT_STACK_TRACE != 0,
        ) == (bits & 3) | RV_CONTEXT_NO_DEFAULT_CALL,
        spec_flag_bits(
            bits & RV_CONTEXT_ARGUMENTS_VOID_PTR != 0,
            bits & RV_CONTEXT_STACK_TRACE != 0,
        ) & RV_CONTEXT_NO_DEFAULT_CALL != 0,
{
    let a = bits & 1u64;
    let s = bits & 2u64;
    assert((bits & 3u64) | 4u64 == 4u64 + (bits & 1u64) + (bits & 2u64)) by (bit_vector);
    assert(bits & 1u64 == 0u64 || bits & 1u64 == 1u64) by (bit_vector);
    assert(bits & 2u64 == 0u64 || bits & 2u64 == 2u64) by (bit_vector);
    assert(4u64 & 4u64 != 0u64) by (bit_vector);
    assert(5u64 & 4u64 != 0u64) by (bit_vector);
    assert(6u64 & 4u64 != 0u64) by (bit_vector);
    assert(7u64 & 4u64 != 0u64) by (bit_vector);
}

} // verus!
