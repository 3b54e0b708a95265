use redstone::cli::{plan_send, Chain, SendPlan};
use redstone::command::{bytes_to_cmd, cmd_to_bytes, command_text, encode_message, Command, CommandError, CMD_LEN};
use redstone::text::{str_equal, utf8_text};

const ALL: [Command; 7] = [
    Command::Addr,
    Command::Block,
    Command::Inv,
    Command::GetBlocks,
    Command::GetData,
    Command::Tx,
    Command::Version,
];

#[test]
fn test_cmd() {
    let field = cmd_to_bytes("version");
    assert_eq!(&field[..7], b"version");
    assert_eq!(&field[7..], &[0u8; 5]);
    let mut msg = field.to_vec();
    msg.extend_from_slice(&[1, 2, 3]);
    assert_eq!(bytes_to_cmd(&msg), Ok(Command::Version));
}

#[test]
fn cmd_to_bytes_pads_with_zeros() {
    assert_eq!(cmd_to_bytes(""), [0u8; CMD_LEN]);
    assert_eq!(cmd_to_bytes("getblocks"), *b"getblocks\0\0\0");
    assert_eq!(cmd_to_bytes("abcdefghijkl"), *b"abcdefghijkl");
}

#[test]
fn every_command_reads_back() {
    for c in ALL.iter() {
        let msg = encode_message(*c, &[9, 9]);
        assert_eq!(&msg[CMD_LEN..], &[9, 9]);
        assert_eq!(&msg[..CMD_LEN], &cmd_to_bytes(command_text(*c)));
        assert_eq!(bytes_to_cmd(&msg), Ok(*c));
    }
}

#[test]
fn zero_bytes_inside_the_field_are_skipped() {
    let mut field = [0u8; CMD_LEN];
    field[0] = b'i';
    field[3] = b'n';
    field[11] = b'v';
    assert_eq!(bytes_to_cmd(&field), Ok(Command::Inv));
}

#[test]
fn unknown_and_invalid_commands() {
    assert_eq!(bytes_to_cmd(&cmd_to_bytes("hello")), Err(CommandError::Unknown));
    assert_eq!(bytes_to_cmd(&[0u8; CMD_LEN]), Err(CommandError::Unknown));
    let mut bad = [0u8; CMD_LEN];
    bad[0] = 0xff;
    assert_eq!(bytes_to_cmd(&bad), Err(CommandError::InvalidText));
}

#[test]
fn text_helpers() {
    assert!(str_equal("abc", "abc"));
    assert!(!str_equal("abc", "abd"));
    assert!(!str_equal("ab", "abc"));
    assert_eq!(utf8_text(vec![0xc3, 0xa9]), Some("\u{e9}".to_string()));
    assert_eq!(utf8_text(vec![0xc3]), None);
}

#[test]
fn send_plan_picks_the_chain() {
    assert_eq!(plan_send(true, 1), SendPlan::MineOn(Chain::One));
    assert_eq!(plan_send(false, 2), SendPlan::SendOn(Chain::Two));
    assert_eq!(plan_send(true, 3), SendPlan::UnknownChain);
    assert_eq!(plan_send(false, 0), SendPlan::UnknownChain);
}
