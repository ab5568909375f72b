use arma_rs::call_context::source_from_parts;
use arma_rs::callback::{callback_step, CallbackStep};
use arma_rs::Source;

#[test]
fn callback_first_try_calls() {
    assert_eq!(callback_step("ext", "done", "[1]", None), CallbackStep::Call);
}

#[test]
fn callback_retries_until_accepted() {
    assert_eq!(callback_step("ext", "done", "", Some(-1)), CallbackStep::Call);
    assert_eq!(callback_step("ext", "done", "", Some(0)), CallbackStep::Done);
    assert_eq!(callback_step("ext", "done", "", Some(3)), CallbackStep::Done);
}

#[test]
fn callback_skips_zero_bytes() {
    assert_eq!(callback_step("e\0xt", "done", "", None), CallbackStep::Skip);
    assert_eq!(callback_step("ext", "do\0ne", "", None), CallbackStep::Skip);
    assert_eq!(callback_step("ext", "done", "\0", Some(0)), CallbackStep::Skip);
}

#[test]
fn source_from_platform_answer() {
    assert_eq!(source_from_parts("", true), Source::Console);
    assert_eq!(source_from_parts("", false), Source::Console);
    assert_eq!(
        source_from_parts("/home/arma/ctx.sqf", true),
        Source::File("/home/arma/ctx.sqf".to_string())
    );
    assert_eq!(
        source_from_parts("x\\ctx\\fn_a.sqf", false),
        Source::Pbo("x\\ctx\\fn_a.sqf".to_string())
    );
}
