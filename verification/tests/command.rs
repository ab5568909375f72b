use arma_rs::command::{
    buffer_len, split_command, status_code, write_cstr, write_output, STATUS_ERROR, STATUS_NOT_FOUND,
    STATUS_OK, STATUS_OUTPUT_TOO_LARGE,
};
use arma_rs::group::CommandTree;

#[test]
fn status_code_argument_count() {
    assert_eq!(status_code(2, 3), Some(23));
    assert_eq!(status_code(2, 0), Some(20));
    assert_eq!(status_code(2, 12), Some(212));
}

#[test]
fn status_code_argument_position() {
    assert_eq!(status_code(3, 1), Some(31));
    assert_eq!(status_code(3, 10), Some(310));
}

#[test]
fn status_code_out_of_range() {
    assert_eq!(status_code(2, -1), None);
    assert_eq!(status_code(2, i32::MAX), None);
    assert_eq!(status_code(2, 147483647), Some(2147483647));
    assert_eq!(status_code(3, 147483647), None);
}

#[test]
fn write_cstr_fits() {
    let mut buf = [7u8; 8];
    assert_eq!(write_cstr("hi".to_string(), &mut buf), Some(2));
    assert_eq!(&buf[..3], b"hi\0");
    assert_eq!(&buf[3..], &[7u8; 5]);
}

#[test]
fn write_cstr_too_long() {
    let mut buf = [7u8; 4];
    assert_eq!(write_cstr("abcd".to_string(), &mut buf), None);
    assert_eq!(buf, [7u8; 4]);
    assert_eq!(write_cstr("abc".to_string(), &mut buf), Some(3));
    assert_eq!(buf, *b"abc\0");
}

#[test]
fn write_cstr_interior_zero() {
    let mut buf = [7u8; 8];
    assert_eq!(write_cstr("a\0b".to_string(), &mut buf), None);
    assert_eq!(buf, [7u8; 8]);
}

#[test]
fn write_size_zero() {
    let mut buf: [u8; 0] = [];
    let result = write_cstr("a".to_string(), &mut buf);
    assert_eq!(result, None);
    assert_eq!(buf, [0u8; 0]);
}

#[test]
fn write_size_zero_empty() {
    let mut buf: [u8; 0] = [];
    let result = write_cstr("".to_string(), &mut buf);
    assert_eq!(result, Some(0));
    assert_eq!(buf, [0u8; 0]);
}

#[test]
fn write_size_one() {
    let mut buf = [0u8; 1];
    let result = write_cstr("a".to_string(), &mut buf);
    assert_eq!(result, None);
    assert_eq!(buf, [0u8; 1]);
}

#[test]
fn write_size_one_empty() {
    let mut buf = [0u8; 1];
    let result = write_cstr("".to_string(), &mut buf);
    assert_eq!(result, Some(0));
    assert_eq!(buf, [0u8; 1]);
}

#[test]
fn write_empty() {
    let mut buf = [0u8; 7];
    let result = write_cstr("".to_string(), &mut buf);
    assert_eq!(result, Some(0));
    assert_eq!(buf, [0u8; 7]);
}

#[test]
fn write_half() {
    let mut buf = [0u8; 7];
    let result = write_cstr("foo".to_string(), &mut buf);
    assert_eq!(result, Some(3));
    assert_eq!(buf, *b"foo\0\0\0\0");
}

#[test]
fn write_full() {
    let mut buf = [0u8; 7];
    let result = write_cstr("foobar".to_string(), &mut buf);
    assert_eq!(result, Some(6));
    assert_eq!(buf, *b"foobar\0");
}

#[test]
fn write_overflow() {
    let mut buf = [0u8; 7];
    let result = write_cstr("foo bar".to_string(), &mut buf);
    assert_eq!(result, None);
    assert_eq!(buf, [0u8; 7]);
}

#[test]
fn write_overwrite() {
    let mut buf = *b"zzzzzz\0";
    let result = write_cstr("a".to_string(), &mut buf);
    assert_eq!(result, Some(1));
    assert_eq!(buf, *b"a\0zzzz\0");
}

#[test]
fn write_cstr_multibyte() {
    let mut buf = [0u8; 8];
    assert_eq!(write_cstr("é".to_string(), &mut buf), Some(2));
    assert_eq!(&buf[..3], &[0xc3, 0xa9, 0]);
}

#[test]
fn write_output_statuses() {
    let mut buf = [0u8; 8];
    assert_eq!(write_output("ok".to_string(), true, &mut buf), STATUS_OK);
    assert_eq!(write_output("bad".to_string(), false, &mut buf), STATUS_ERROR);
    assert_eq!(&buf[..4], b"bad\0");
    assert_eq!(
        write_output("far too long".to_string(), true, &mut buf),
        STATUS_OUTPUT_TOO_LARGE
    );
    assert_eq!(&buf[..4], b"bad\0");
}

#[test]
fn split_command_groups() {
    assert_eq!(
        split_command("hello:english:casual"),
        Some(("hello".to_string(), "english:casual".to_string()))
    );
    assert_eq!(split_command("hello"), None);
    assert_eq!(split_command(":x"), Some((String::new(), "x".to_string())));
}

#[test]
fn mod_context_buffer_len_zero() {
    assert_eq!(buffer_len(0), 0);
}

#[test]
fn mod_context_buffer_len() {
    assert_eq!(buffer_len(100), 99);
}

fn readme_tree() -> CommandTree<u32, &'static str> {
    CommandTree::new("root")
        .group(
            "hello".to_string(),
            CommandTree::new("hello")
                .command("english".to_string(), 1)
                .group(
                    "english".to_string(),
                    CommandTree::new("casual").command("casual".to_string(), 2),
                )
                .command("french".to_string(), 3),
        )
        .group(
            "welcome".to_string(),
            CommandTree::new("welcome")
                .command("english".to_string(), 4)
                .command("french".to_string(), 5),
        )
        .command("add".to_string(), 6)
}

#[test]
fn group_routing() {
    let tree = readme_tree();
    assert_eq!(tree.resolve("hello:english"), Some((&1, &"hello")));
    assert_eq!(tree.resolve("hello:english:casual"), Some((&2, &"casual")));
    assert_eq!(tree.resolve("hello:french"), Some((&3, &"hello")));
    assert_eq!(tree.resolve("welcome:english"), Some((&4, &"welcome")));
    assert_eq!(tree.resolve("add"), Some((&6, &"root")));
}

#[test]
fn group_not_found() {
    let tree = readme_tree();
    assert_eq!(tree.resolve("sub"), None);
    assert_eq!(tree.resolve("hello"), None);
    assert_eq!(tree.resolve("hello:german"), None);
    assert_eq!(tree.resolve("nothing:english"), None);
    assert_eq!(tree.resolve("english"), None);
    assert_eq!(STATUS_NOT_FOUND, 1);
}

#[test]
fn group_command_replaced() {
    let tree = CommandTree::new(())
        .command("a".to_string(), 1)
        .command("b".to_string(), 2)
        .command("a".to_string(), 3);
    assert_eq!(tree.resolve("a"), Some((&3, &())));
    assert_eq!(tree.resolve("b"), Some((&2, &())));
}

#[test]
fn group_name_with_colon_unreachable() {
    let tree = CommandTree::new(()).command("a:b".to_string(), 1);
    assert_eq!(tree.resolve("a:b"), None);
}

#[test]
fn group_state_changed() {
    let mut tree = CommandTree::new(1u8)
        .command("x".to_string(), 'x')
        .group("g".to_string(), CommandTree::new(2u8).command("y".to_string(), 'y'));
    assert_eq!(tree.replace_state(5), 1);
    assert_eq!(tree.state(), &5);
    assert_eq!(tree.resolve("x"), Some((&'x', &5)));
    assert_eq!(tree.resolve("g:y"), Some((&'y', &2)));
}
