use file_share::codec::{encode_frame, encode_share, decode_share, parse_header, read_frame, ProtocolError};
use file_share::command::{CommandType, ParseError, ShareCommand, ShareCommandBuilder};
use file_share::share::{Location, ServerResponse, ServerResponseStatus, Share};

fn upload_command(name: &str) -> ShareCommand {
    ShareCommandBuilder::new()
        .command_type(CommandType::Upload)
        .arg(name.to_string())
        .build()
}

#[test]
fn parse_catalog() {
    let cmd = ShareCommand::parse("CATALOG").unwrap();
    assert_eq!(cmd.command_type, CommandType::Catalog);
    assert!(cmd.arg.is_none());
}

#[test]
fn parse_upload_with_argument() {
    let cmd = ShareCommand::parse("UPLOAD foo.txt").unwrap();
    assert_eq!(cmd.command_type, CommandType::Upload);
    assert_eq!(cmd.arg.as_deref(), Some("foo.txt"));
}

#[test]
fn parse_ignores_tokens_beyond_the_second() {
    let cmd = ShareCommand::parse("RECEIVE a.txt extra junk").unwrap();
    assert_eq!(cmd.command_type, CommandType::Receive);
    assert_eq!(cmd.arg.as_deref(), Some("a.txt"));
}

#[test]
fn parse_handles_surrounding_whitespace() {
    let cmd = ShareCommand::parse("  RECEIVE \t data.bin  ").unwrap();
    assert_eq!(cmd.command_type, CommandType::Receive);
    assert_eq!(cmd.arg.as_deref(), Some("data.bin"));
}

#[test]
fn parse_empty_fails() {
    assert_eq!(ShareCommand::parse("").unwrap_err(), ParseError::EmptyCommand);
}

#[test]
fn parse_whitespace_only_fails() {
    assert_eq!(ShareCommand::parse("   \t ").unwrap_err(), ParseError::EmptyCommand);
}

#[test]
fn parse_unknown_keyword_fails() {
    assert_eq!(ShareCommand::parse("FROBNICATE").unwrap_err(), ParseError::UnknownCommand);
    assert_eq!(ShareCommand::parse("upload foo").unwrap_err(), ParseError::UnknownCommand);
}

#[test]
fn parse_unexpected_argument_fails() {
    assert_eq!(ShareCommand::parse("HELP me").unwrap_err(), ParseError::UnexpectedArgument);
    assert_eq!(ShareCommand::parse("CATALOG now").unwrap_err(), ParseError::UnexpectedArgument);
}

#[test]
fn parse_missing_argument_fails() {
    assert_eq!(ShareCommand::parse("UPLOAD").unwrap_err(), ParseError::MissingArgument);
    assert_eq!(ShareCommand::parse("RECEIVE  ").unwrap_err(), ParseError::MissingArgument);
}

#[test]
fn command_kind_properties() {
    assert!(!CommandType::Exit.has_arg());
    assert!(!CommandType::Help.has_arg());
    assert!(!CommandType::Catalog.has_arg());
    assert!(CommandType::Upload.has_arg());
    assert!(CommandType::Receive.has_arg());
    assert!(CommandType::Exit.is_client());
    assert!(CommandType::Help.is_client());
    assert!(!CommandType::Upload.is_client());
    assert!(!CommandType::Receive.is_client());
    assert!(!CommandType::Catalog.is_client());
}

#[test]
fn command_type_is_compares_the_kind() {
    let mut cmd = ShareCommand::parse("EXIT").unwrap();
    assert!(cmd.command_type_is(CommandType::Exit));
    assert!(!cmd.command_type_is(CommandType::Help));
    assert_eq!(cmd.command_type(), CommandType::Exit);
}

#[test]
fn builder_builds_what_was_set() {
    let cmd = ShareCommandBuilder::new()
        .command_type(CommandType::Catalog)
        .build();
    assert_eq!(cmd.command_type, CommandType::Catalog);
    assert!(cmd.arg.is_none());

    let cmd = upload_command("notes.txt");
    assert_eq!(cmd.command_type, CommandType::Upload);
    assert_eq!(cmd.arg.as_deref(), Some("notes.txt"));
}

#[test]
fn fresh_response_is_success_ok() {
    let r = ServerResponse::new();
    assert_eq!(r.status, ServerResponseStatus::Success);
    assert_eq!(r.text.as_deref(), Some("OK"));
}

#[test]
fn envelope_round_trip_keeps_every_field() {
    let mut share = Share::new(upload_command("foo.txt"), Location::Client);
    share.set_file(vec![1, 2, 3, 250, 0, 7]);
    share.text_data = Some("héllo wörld".to_string());
    let bytes = encode_share(&share);
    let back = decode_share(&bytes, Location::Server).unwrap();
    assert_eq!(back.command.command_type, CommandType::Upload);
    assert_eq!(back.command.arg.as_deref(), Some("foo.txt"));
    assert_eq!(back.file.as_deref(), Some(&[1u8, 2, 3, 250, 0, 7][..]));
    assert_eq!(back.text_data.as_deref(), Some("héllo wörld"));
    assert_eq!(back.server_response.status, ServerResponseStatus::Success);
    assert_eq!(back.server_response.text.as_deref(), Some("OK"));
    assert_eq!(back.current_location, Location::Server);
}

#[test]
fn envelope_round_trip_with_error_response() {
    let mut share = Share::new(
        ShareCommandBuilder::new().command_type(CommandType::Help).build(),
        Location::Server,
    );
    share.set_error_response("it broke".to_string());
    let bytes = encode_share(&share);
    let back = decode_share(&bytes, Location::Client).unwrap();
    assert_eq!(back.server_response.status, ServerResponseStatus::Error);
    assert_eq!(back.server_response.text.as_deref(), Some("it broke"));
    assert!(back.file.is_none());
    assert!(back.text_data.is_none());
    assert_eq!(back.current_location, Location::Client);
}

#[test]
fn decoding_changes_the_bytes_read() {
    // A decoder that handed its input back unchanged could never produce an
    // envelope from these bytes.
    assert_eq!(decode_share(&[], Location::Server).map(|_| ()), Err(ProtocolError::Malformed));
    assert_eq!(decode_share(&[9, 0, 0, 0, 0, 0], Location::Server).map(|_| ()), Err(ProtocolError::Malformed));
    // Trailing garbage after a well-formed envelope is refused.
    let share = Share::new(
        ShareCommandBuilder::new().command_type(CommandType::Catalog).build(),
        Location::Client,
    );
    let mut bytes = encode_share(&share);
    bytes.push(0);
    assert_eq!(decode_share(&bytes, Location::Server).map(|_| ()), Err(ProtocolError::Malformed));
}

#[test]
fn invalid_utf8_text_is_malformed() {
    let share = Share::new(upload_command("a"), Location::Client);
    let bytes = encode_share(&share);
    // The argument "a" sits at the end of its length-prefixed block; patch it
    // to a lone continuation byte, which is not UTF-8.
    let pos = bytes.iter().position(|&b| b == b'a').unwrap();
    let mut patched = bytes.clone();
    patched[pos] = 0xFF;
    assert_eq!(decode_share(&patched, Location::Server).map(|_| ()), Err(ProtocolError::Malformed));
}

#[test]
fn frame_round_trip() {
    let mut share = Share::new(upload_command("foo.txt"), Location::Client);
    share.set_file(b"file contents".to_vec());
    let frame = encode_frame(&share);
    let (back, used) = read_frame(&frame, Location::Server).unwrap();
    assert_eq!(used, frame.len());
    assert_eq!(back.command.arg.as_deref(), Some("foo.txt"));
    assert_eq!(back.file.as_deref(), Some(&b"file contents"[..]));
    assert_eq!(back.current_location, Location::Server);
}

#[test]
fn frame_header_is_decimal_ascii() {
    let share = Share::new(
        ShareCommandBuilder::new().command_type(CommandType::Catalog).build(),
        Location::Client,
    );
    let frame = encode_frame(&share);
    let payload = encode_share(&share);
    let nl = frame.iter().position(|&b| b == b'\n').unwrap();
    let header = std::str::from_utf8(&frame[..nl]).unwrap();
    assert_eq!(header.parse::<usize>().unwrap(), payload.len());
    assert_eq!(&frame[nl + 1..], &payload[..]);
}

#[test]
fn bad_header_fails_read_frame() {
    let r = read_frame(b"notanumber\nwhatever", Location::Server);
    assert_eq!(r.map(|p| p.1), Err(ProtocolError::BadHeader));
}

#[test]
fn empty_input_fails_with_bad_header() {
    assert_eq!(read_frame(b"", Location::Server).map(|p| p.1), Err(ProtocolError::BadHeader));
}

#[test]
fn short_read_fails_read_frame() {
    // Ten bytes declared, three present before the close.
    let r = read_frame(b"10\nabc", Location::Server);
    assert_eq!(r.map(|p| p.1), Err(ProtocolError::ShortRead));
}

#[test]
fn garbage_payload_fails_as_malformed() {
    let r = read_frame(b"5\nhello", Location::Server);
    assert_eq!(r.map(|p| p.1), Err(ProtocolError::Malformed));
}

#[test]
fn parse_header_reads_trimmed_decimal() {
    assert_eq!(parse_header(b"123"), Ok(123));
    assert_eq!(parse_header(b" 42 \r"), Ok(42));
    assert_eq!(parse_header(b"0"), Ok(0));
}

#[test]
fn parse_header_rejects_non_numbers() {
    assert_eq!(parse_header(b""), Err(ProtocolError::BadHeader));
    assert_eq!(parse_header(b"  "), Err(ProtocolError::BadHeader));
    assert_eq!(parse_header(b"12a"), Err(ProtocolError::BadHeader));
    assert_eq!(parse_header(b"-4"), Err(ProtocolError::BadHeader));
    assert_eq!(parse_header(b"99999999999999999999999999999999"), Err(ProtocolError::BadHeader));
}
