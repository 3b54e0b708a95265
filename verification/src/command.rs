//! The command field that opens every message between nodes.

use vstd::prelude::*;
use vstd::utf8::*;
use vstd::string::*;
use crate::text::utf8_text;

verus! {

/// The width of the command field.
pub const CMD_LEN: usize = 12;

/// The kinds of message that nodes exchange.
#[derive(Debug, Clone, Copy, PartialEq, Eq, Structural)]
pub enum Command {
    Addr,
    Block,
    Inv,
    GetBlocks,
    GetData,
    Tx,
    Version,
}

/// Why a command field could not be read.
#[derive(Debug, Clone, Copy, PartialEq, Eq, Structural)]
pub enum CommandError {
    /// Its non-zero bytes are not valid UTF-8.
    InvalidText,
    /// Its non-zero bytes name no command.
    Unknown,
}

/// The name that identifies a command on the wire.
pub open spec fn command_name(c: Command) -> Seq<char> {
    match c {
        Command::Addr => "addr"@,
        Command::Block => "block"@,
        Command::Inv => "inv"@,
        Command::GetBlocks => "getblocks"@,
        Command::GetData => "getdata"@,
        Command::Tx => "tx"@,
        Command::Version => "version"@,
    }
}

/// The command field that carries `name`: its UTF-8 bytes, then zeros up to
/// `CMD_LEN` bytes.
pub open spec fn command_field(name: Seq<char>) -> Seq<u8> {
    encode_utf8(name) + Seq::new((CMD_LEN - encode_utf8(name).len()) as nat, |i: int| 0u8)
}

/// The bytes of `s` other than the zero bytes, in order.
pub open spec fn strip_zeros(s: Seq<u8>) -> Seq<u8>
    decreases s.len(),
{
    if s.len() == 0 {
        s
    } else if s.last() == 0 {
        strip_zeros(s.drop_last())
    } else {
        strip_zeros(s.drop_last()).push(s.last())
    }
}

/// The command that a message beginning with `bytes` carries: the non-zero
/// bytes of its first `CMD_LEN` bytes, read as UTF-8 text, against the
/// command names in turn.
pub open spec fn command_of(bytes: Seq<u8>) -> Result<Command, CommandError> {
    let name = strip_zeros(bytes.take(CMD_LEN as int));
    if !valid_utf8(name) {
        Err(CommandError::InvalidText)
    } else if name == encode_utf8("addr"@) {
        Ok(Command::Addr)
    } else if name == encode_utf8("block"@) {
        Ok(Command::Block)
    } else if name == encode_utf8("inv"@) {
        Ok(Command::Inv)
    } else if name == encode_utf8("getblocks"@) {
        Ok(Command::GetBlocks)
    } else if name == encode_utf8("getdata"@) {
        Ok(Command::GetData)
    } else if name == encode_utf8("tx"@) {
        Ok(Command::Tx)
    } else if name == encode_utf8("version"@) {
        Ok(Command::Version)
    } else {
        Err(CommandError::Unknown)
    }
}

/// Whether two byte strings are equal.
fn bytes_equal(a: &[u8], b: &[u8]) -> (eq: bool)
    ensures
        eq == (a@ == b@),
{
    if a.len() != b.len() {
        return false;
    }
    let mut i: usize = 0;
    while i < a.len()
        invariant
            a@.len() == b@.len(),
            i <= a@.len(),
            forall|k: int| 0 <= k < i ==> a@[k] == b@[k],
        decreases a@.len() - i,
    {
        if a[i] != b[i] {
            return false;
        }
        i = i + 1;
    }
    assert(a@ =~= b@);
    true
}

/// The command field that carries the text `cmd`.
pub fn cmd_to_bytes(cmd: &str) -> (field: [u8; CMD_LEN])
    requires
        encode_utf8(cmd@).len() <= CMD_LEN,
    ensures
        field@ == command_field(cmd@),
{
    let mut data = [0u8; 12];
    let bytes = cmd.as_bytes();
    let mut i: usize = 0;
    while i < bytes.len()
        invariant
            bytes@ == encode_utf8(cmd@),
            bytes@.len() <= CMD_LEN,
            i <= bytes@.len(),
            data@.len() == CMD_LEN,
            forall|k: int| 0 <= k < i ==> data@[k] == bytes@[k],
            forall|k: int| i <= k < CMD_LEN ==> data@[k] == 0,
        decreases bytes@.len() - i,
    {
        data[i] = bytes[i];
        i = i + 1;
    }
    assert(data@ =~= command_field(cmd@));
    data
}

/// The command that a message beginning with `bytes` carries.
pub fn bytes_to_cmd(bytes: &[u8]) -> (cmd: Result<Command, CommandError>)
    requires
        bytes@.len() >= CMD_LEN,
    ensures
        cmd == command_of(bytes@),
{
    let mut name: Vec<u8> = Vec::new();
    let mut i: usize = 0;
    while i < CMD_LEN
        invariant
            bytes@.len() >= CMD_LEN,
            i <= CMD_LEN,
            name@ == strip_zeros(bytes@.take(i as int)),
        decreases CMD_LEN - i,
    {
        assert(bytes@.take(i + 1).drop_last() =~= bytes@.take(i as int));
        if bytes[i] != 0 {
            name.push(bytes[i]);
        }
        i = i + 1;
    }
    if utf8_text(name.clone()).is_none() {
        return Err(CommandError::InvalidText);
    }
    let name = name.as_slice();
    if bytes_equal(name, "addr".as_bytes()) {
        Ok(Command::Addr)
    } else if bytes_equal(name, "block".as_bytes()) {
        Ok(Command::Block)
    } else if bytes_equal(name, "inv".as_bytes()) {
        Ok(Command::Inv)
    } else if bytes_equal(name, "getblocks".as_bytes()) {
        Ok(Command::GetBlocks)
    } else if bytes_equal(name, "getdata".as_bytes()) {
        Ok(Command::GetData)
    } else if bytes_equal(name, "tx".as_bytes()) {
        Ok(Command::Tx)
    } else if bytes_equal(name, "version".as_bytes()) {
        Ok(Command::Version)
    } else {
        Err(CommandError::Unknown)
    }
}

/// The text of a command's name.
pub fn command_text(c: Command) -> (name: &'static str)
    ensures
        name@ == command_name(c),
{
    match c {
        Command::Addr => "addr",
        Command::Block => "block",
        Command::Inv => "inv",
        Command::GetBlocks => "getblocks",
        Command::GetData => "getdata",
        Command::Tx => "tx",
        Command::Version => "version",
    }
}

/// Command names are short runs of ASCII letters.
proof fn lemma_command_name_bytes(c: Command)
    ensures
        is_ascii_chars(command_name(c)),
        encode_utf8(command_name(c)).len() == command_name(c).len(),
        1 <= command_name(c).len() <= CMD_LEN,
        forall|i: int|
            0 <= i < encode_utf8(command_name(c)).len() ==> #[trigger] encode_utf8(
                command_name(c),
            )[i] != 0,
{
    reveal_strlit("addr");
    reveal_strlit("block");
    reveal_strlit("inv");
    reveal_strlit("getblocks");
    reveal_strlit("getdata");
    reveal_strlit("tx");
    reveal_strlit("version");
    is_ascii_chars_encode_utf8(command_name(c));
}

/// Zero bytes appended to `s` leave its non-zero bytes unchanged.
proof fn lemma_strip_trailing_zeros(s: Seq<u8>, n: nat)
    ensures
        strip_zeros(s + Seq::new(n, |i: int| 0u8)) == strip_zeros(s),
    decreases n,
{
    if n > 0 {
        let z = s + Seq::new(n, |i: int| 0u8);
        assert(z.drop_last() =~= s + Seq::new((n - 1) as nat, |i: int| 0u8));
        lemma_strip_trailing_zeros(s, (n - 1) as nat);
    } else {
        assert(s + Seq::new(n, |i: int| 0u8) =~= s);
    }
}

/// A byte string without zero bytes is its own non-zero part.
proof fn lemma_strip_no_zeros(s: Seq<u8>)
    requires
        forall|i: int| 0 <= i < s.len() ==> s[i] != 0,
    ensures
        strip_zeros(s) == s,
    decreases s.len(),
{
    if s.len() > 0 {
        lemma_strip_no_zeros(s.drop_last());
        assert(s.drop_last().push(s.last()) =~= s);
    }
}

/// The command field of a command, followed by any payload, reads back as
/// that command.
pub proof fn lemma_command_round_trip(c: Command, payload: Seq<u8>)
    ensures
        command_of(command_field(command_name(c)) + payload) == Ok::<Command, CommandError>(c),
{
    broadcast use encode_utf8_decode_utf8, encode_utf8_valid_utf8;

    lemma_command_name_bytes(c);
    let name = encode_utf8(command_name(c));
    let field = command_field(command_name(c));
    assert((field + payload).take(CMD_LEN as int) =~= field);
    lemma_strip_trailing_zeros(name, (CMD_LEN - name.len()) as nat);
    lemma_strip_no_zeros(name);
    assert(strip_zeros(field) == name);
    reveal_strlit("addr");
    reveal_strlit("block");
    reveal_strlit("inv");
    reveal_strlit("getblocks");
    reveal_strlit("getdata");
    reveal_strlit("tx");
    reveal_strlit("version");
    assert(decode_utf8(encode_utf8("addr"@)) == "addr"@);
    assert(decode_utf8(encode_utf8("block"@)) == "block"@);
    assert(decode_utf8(encode_utf8("inv"@)) == "inv"@);
    assert(decode_utf8(encode_utf8("getblocks"@)) == "getblocks"@);
    assert(decode_utf8(encode_utf8("getdata"@)) == "getdata"@);
    assert(decode_utf8(encode_utf8("tx"@)) == "tx"@);
    assert(decode_utf8(encode_utf8("version"@)) == "version"@);
    assert(decode_utf8(name) == command_name(c));
}

/// A message: the command field of `command`, then the encoded payload.
pub fn encode_message(command: Command, payload: &[u8]) -> (message: Vec<u8>)
    ensures
        message@ == command_field(command_name(command)) + payload@,
{
    proof {
        lemma_command_name_bytes(command);
    }
    let field = cmd_to_bytes(command_text(command));
    let mut message: Vec<u8> = Vec::new();
    let mut i: usize = 0;
    while i < CMD_LEN
        invariant
            field@ == command_field(command_name(command)),
            field@.len() == CMD_LEN,
            i <= CMD_LEN,
            message@ == field@.take(i as int),
        decreases CMD_LEN - i,
    {
        message.push(field[i]);
        assert(field@.take(i + 1) =~= field@.take(i as int).push(field@[i as int]));
        i = i + 1;
    }
    let mut j: usize = 0;
    while j < payload.len()
        invariant
            field@ == command_field(command_name(command)),
            field@.len() == CMD_LEN,
            j <= payload@.len(),
            message@ == field@ + payload@.take(j as int),
        decreases payload@.len() - j,
    {
        message.push(payload[j]);
        assert(payload@.take(j + 1) =~= payload@.take(j as int).push(payload@[j as int]));
        j = j + 1;
    }
    assert(field@.take(CMD_LEN as int) =~= field@);
    assert(payload@.take(payload@.len() as int) =~= payload@);
    message
}

/// `n` zero bytes.
pub open spec fn zero_bytes(n: nat) -> Seq<u8> {
    Seq::new(n, |i: int| 0u8)
}

/// The command whose wire name is `name` has the zero-padded field of that
/// name, and that field, before any payload, reads back as the command.
proof fn lemma_wire_name(c: Command, name: Seq<char>, zeros: nat, payload: Seq<u8>)
    requires
        command_name(c) == name,
        encode_utf8(name).len() + zeros == CMD_LEN,
    ensures
        command_field(command_name(c)) == encode_utf8(name) + zero_bytes(zeros),
        command_of(encode_utf8(name) + zero_bytes(zeros) + payload) == Ok::<Command, CommandError>(c),
{
    assert(command_field(command_name(c)) =~= encode_utf8(name) + zero_bytes(zeros));
    lemma_command_round_trip(c, payload);
}

/// Each command travels under its own wire name, padded with zeros to
/// `CMD_LEN` bytes, and a field holding a wire name reads back as that
/// name's command, whatever payload follows: "addr" is Addr, "block" is
/// Block, "inv" is Inv, "getblocks" is GetBlocks, "getdata" is GetData,
/// "tx" is Tx and "version" is Version.
pub proof fn lemma_wire_names(payload: Seq<u8>)
    ensures
        command_field(command_name(Command::Addr)) == encode_utf8("addr"@) + zero_bytes(8),
        command_field(command_name(Command::Block)) == encode_utf8("block"@) + zero_bytes(7),
        command_field(command_name(Command::Inv)) == encode_utf8("inv"@) + zero_bytes(9),
        command_field(command_name(Command::GetBlocks)) == encode_utf8("getblocks"@) + zero_bytes(3),
        command_field(command_name(Command::GetData)) == encode_utf8("getdata"@) + zero_bytes(5),
        command_field(command_name(Command::Tx)) == encode_utf8("tx"@) + zero_bytes(10),
        command_field(command_name(Command::Version)) == encode_utf8("version"@) + zero_bytes(5),
        command_of(encode_utf8("addr"@) + zero_bytes(8) + payload) == Ok::<Command, CommandError>(Command::Addr),
        command_of(encode_utf8("block"@) + zero_bytes(7) + payload) == Ok::<Command, CommandError>(Command::Block),
        command_of(encode_utf8("inv"@) + zero_bytes(9) + payload) == Ok::<Command, CommandError>(Command::Inv),
        command_of(encode_utf8("getblocks"@) + zero_bytes(3) + payload) == Ok::<Command, CommandError>(
            Command::GetBlocks,
        ),
        command_of(encode_utf8("getdata"@) + zero_bytes(5) + payload) == Ok::<Command, CommandError>(
            Command::GetData,
        ),
        command_of(encode_utf8("tx"@) + zero_bytes(10) + payload) == Ok::<Command, CommandError>(Command::Tx),
        command_of(encode_utf8("version"@) + zero_bytes(5) + payload) == Ok::<Command, CommandError>(
            Command::Version,
        ),
{
    reveal_strlit("addr");
    reveal_strlit("block");
    reveal_strlit("inv");
    reveal_strlit("getblocks");
    reveal_strlit("getdata");
    reveal_strlit("tx");
    reveal_strlit("version");
    lemma_command_name_bytes(Command::Addr);
    lemma_command_name_bytes(Command::Block);
    lemma_command_name_bytes(Command::Inv);
    lemma_command_name_bytes(Command::GetBlocks);
    lemma_command_name_bytes(Command::GetData);
    lemma_command_name_bytes(Command::Tx);
    lemma_command_name_bytes(Command::Version);
    assert("addr"@.len() == 4);
    assert("block"@.len() == 5);
    assert("inv"@.len() == 3);
    assert("getblocks"@.len() == 9);
    assert("getdata"@.len() == 7);
    assert("tx"@.len() == 2);
    assert("version"@.len() == 7);
    lemma_wire_name(Command::Addr, "addr"@, 8, payload);
    lemma_wire_name(Command::Block, "block"@, 7, payload);
    lemma_wire_name(Command::Inv, "inv"@, 9, payload);
    lemma_wire_name(Command::GetBlocks, "getblocks"@, 3, payload);
    lemma_wire_name(Command::GetData, "getdata"@, 5, payload);
    lemma_wire_name(Command::Tx, "tx"@, 10, payload);
    lemma_wire_name(Command::Version, "version"@, 5, payload);
}

} // verus!
