use arma_rs::flags::{
    FeatureFlags, RV_CONTEXT_ARGUMENTS_VOID_PTR, RV_CONTEXT_NO_DEFAULT_CALL, RV_CONTEXT_STACK_TRACE,
};

#[test]
fn just_arguments_void_ptr() {
    let mut flags = FeatureFlags::default();
    flags.set_context_arguments_void_ptr(true);
    assert_eq!(
        flags.as_bits(),
        RV_CONTEXT_NO_DEFAULT_CALL | RV_CONTEXT_ARGUMENTS_VOID_PTR
    );
}

#[test]
fn just_stack_trace() {
    let mut flags = FeatureFlags::default();
    flags.set_context_stack_trace(true);
    assert_eq!(
        flags.as_bits(),
        RV_CONTEXT_NO_DEFAULT_CALL | RV_CONTEXT_STACK_TRACE
    );
}

#[test]
fn all() {
    let mut flags = FeatureFlags::default();
    flags.set_context_arguments_void_ptr(true);
    flags.set_context_stack_trace(true);
    assert_eq!(
        flags.as_bits(),
        RV_CONTEXT_NO_DEFAULT_CALL | RV_CONTEXT_ARGUMENTS_VOID_PTR | RV_CONTEXT_STACK_TRACE
    );
}

#[test]
fn flags_from_bits_round_trip() {
    for bits in 0u64..8 {
        let flags = FeatureFlags::from_bits(bits);
        assert_eq!(flags.as_bits(), bits | RV_CONTEXT_NO_DEFAULT_CALL);
        assert_eq!(FeatureFlags::from_bits(flags.as_bits()), flags);
    }
    let flags = FeatureFlags::from_bits(RV_CONTEXT_STACK_TRACE);
    assert!(flags.context_stack_trace());
    assert!(!flags.context_arguments_void_ptr());
}
