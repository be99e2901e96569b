use ethproofs_client::protocol::{
    classify_text_command, frame_input_message, input_block_number, input_command,
    input_file_name, parse_broadcast_command, parse_message, queued_command, queued_notice,
    Broadcast, TextCommand,
};

#[test]
fn parse_message_splits_at_first_newline() {
    let data = b"123.bin\nabc\ndef";
    let (name, content) = parse_message(data).unwrap();
    assert_eq!(name, "123.bin");
    assert_eq!(content, b"abc\ndef");
}

#[test]
fn parse_message_empty_name_and_content() {
    let (name, content) = parse_message(b"\n").unwrap();
    assert_eq!(name, "");
    assert_eq!(content, b"");
}

#[test]
fn parse_message_without_newline_is_malformed() {
    assert!(parse_message(b"no newline here").is_none());
    assert!(parse_message(b"").is_none());
}

#[test]
fn parse_message_rejects_invalid_utf8_name() {
    assert!(parse_message(&[0xff, 0xfe, b'\n', 1, 2]).is_none());
}

#[test]
fn parse_message_accepts_multibyte_name() {
    let data = "bloque_ñ.bin\nx".as_bytes();
    let (name, content) = parse_message(data).unwrap();
    assert_eq!(name, "bloque_ñ.bin");
    assert_eq!(content, b"x");
}

#[test]
fn frame_then_parse_gives_back_name_and_content() {
    let framed = frame_input_message("21000000.bin", &[0, 10, 255, 7]);
    assert_eq!(framed, b"21000000.bin\n\x00\n\xff\x07".to_vec());
    let (name, content) = parse_message(&framed).unwrap();
    assert_eq!(name, "21000000.bin");
    assert_eq!(content, &[0u8, 10, 255, 7][..]);
}

#[test]
fn broadcast_commands_are_formatted() {
    assert_eq!(queued_command(21000000), "queued 21000000");
    assert_eq!(input_command(21000000), "input 21000000.bin");
    assert_eq!(input_file_name(0), "0.bin");
    assert_eq!(queued_notice("42"), "queued 42");
}

#[test]
fn broadcast_commands_are_read_back() {
    match parse_broadcast_command(&queued_command(77)) {
        Broadcast::Queued(b) => assert_eq!(b, "77"),
        _ => panic!("expected a queued command"),
    }
    match parse_broadcast_command(&input_command(77)) {
        Broadcast::Input(f) => assert_eq!(f, "77.bin"),
        _ => panic!("expected an input command"),
    }
}

#[test]
fn broadcast_needs_exactly_two_words() {
    assert!(matches!(parse_broadcast_command("queued"), Broadcast::Unknown));
    assert!(matches!(parse_broadcast_command("queued 1 2"), Broadcast::Unknown));
    assert!(matches!(parse_broadcast_command("proved 1"), Broadcast::Unknown));
    assert!(matches!(parse_broadcast_command(""), Broadcast::Unknown));
    match parse_broadcast_command("  input\t\u{3000}5.bin \n") {
        Broadcast::Input(f) => assert_eq!(f, "5.bin"),
        _ => panic!("expected an input command"),
    }
}

#[test]
fn text_commands_are_classified() {
    assert_eq!(classify_text_command(""), TextCommand::Empty);
    assert_eq!(classify_text_command("   \t "), TextCommand::Empty);
    assert_eq!(classify_text_command("queued 123"), TextCommand::Queued(123));
    assert_eq!(classify_text_command(" queued  +9 extra"), TextCommand::Queued(9));
    assert_eq!(classify_text_command("queued"), TextCommand::QueuedWithoutBlock);
    assert_eq!(classify_text_command("queued x1"), TextCommand::QueuedBadBlock);
    assert_eq!(classify_text_command("queued -1"), TextCommand::QueuedBadBlock);
    assert_eq!(
        classify_text_command("queued 18446744073709551616"),
        TextCommand::QueuedBadBlock
    );
    assert_eq!(classify_text_command("input 1.bin"), TextCommand::Unknown);
    assert_eq!(classify_text_command("Queued 1"), TextCommand::Unknown);
}

#[test]
fn queued_command_reaches_the_client_as_its_block() {
    assert_eq!(
        classify_text_command(&queued_command(u64::MAX)),
        TextCommand::Queued(u64::MAX)
    );
}

#[test]
fn block_number_is_read_from_input_paths() {
    assert_eq!(input_block_number("upload_inputs/123.bin"), Some(123));
    assert_eq!(input_block_number("123"), Some(123));
    assert_eq!(input_block_number("dir/7.tar.gz"), None);
    assert_eq!(input_block_number("dir/8.bin/"), Some(8));
    assert_eq!(input_block_number("dir/9.bin/."), Some(9));
    assert_eq!(input_block_number("dir/.."), None);
    assert_eq!(input_block_number("/"), None);
    assert_eq!(input_block_number(""), None);
    assert_eq!(input_block_number("a/.5"), None);
    assert_eq!(input_block_number("a/block.bin"), None);
}
