//! The messages that nodes exchange, and their mathematical values.

use vstd::prelude::*;
use crate::block::{Block, BlockModel};
use crate::command::{command_field, command_name, lemma_wire_names, zero_bytes, Command};
use vstd::utf8::encode_utf8;
use crate::transaction::{Transaction, TxModel};

verus! {

/// A block, sent in answer to a request for it.
pub struct Blockmsg {
    pub addr_from: String,
    pub block: Block,
    pub chain: i32,
}

/// A request for the hashes of a chain's blocks.
pub struct GetBlocksmsg {
    pub addr_from: String,
    pub chain: i32,
}

/// A request for one block or one transaction, by hash or id.
pub struct GetDatamsg {
    pub addr_from: String,
    pub kind: String,
    pub id: String,
    pub chain: i32,
}

/// An inventory: hashes of blocks or ids of transactions that the sender has.
pub struct Invmsg {
    pub addr_from: String,
    pub kind: String,
    pub items: Vec<String>,
    pub chain: i32,
}

/// A transaction, forwarded for the mempool.
pub struct Txmsg {
    pub addr_from: String,
    pub transaction: Transaction,
    pub chain: i32,
}

/// The sender's protocol version and the height of its chain.
pub struct Versionmsg {
    pub addr_from: String,
    pub version: i32,
    pub best_height: i32,
    pub chain: i32,
}

/// A message between nodes.
pub enum Message {
    Addr(Vec<String>),
    Version(Versionmsg),
    Tx(Txmsg),
    GetData(GetDatamsg),
    GetBlock(GetBlocksmsg),
    Inv(Invmsg),
    Block(Blockmsg),
}

/// The values of a sequence of strings.
pub open spec fn texts(v: Seq<String>) -> Seq<Seq<char>> {
    v.map_values(|s: String| s@)
}

/// The mathematical value of a message.
pub enum MessageModel {
    Addr(Seq<Seq<char>>),
    Version { addr_from: Seq<char>, version: i32, best_height: i32, chain: i32 },
    Tx { addr_from: Seq<char>, transaction: TxModel, chain: i32 },
    GetData { addr_from: Seq<char>, kind: Seq<char>, id: Seq<char>, chain: i32 },
    GetBlock { addr_from: Seq<char>, chain: i32 },
    Inv { addr_from: Seq<char>, kind: Seq<char>, items: Seq<Seq<char>>, chain: i32 },
    Block { addr_from: Seq<char>, block: BlockModel, chain: i32 },
}

impl View for Message {
    type V = MessageModel;

    open spec fn view(&self) -> MessageModel {
        match self {
            Message::Addr(nodes) => MessageModel::Addr(texts(nodes@)),
            Message::Version(m) => MessageModel::Version {
                addr_from: m.addr_from@,
                version: m.version,
                best_height: m.best_height,
                chain: m.chain,
            },
            Message::Tx(m) => MessageModel::Tx {
                addr_from: m.addr_from@,
                transaction: m.transaction@,
                chain: m.chain,
            },
            Message::GetData(m) => MessageModel::GetData {
                addr_from: m.addr_from@,
                kind: m.kind@,
                id: m.id@,
                chain: m.chain,
            },
            Message::GetBlock(m) => MessageModel::GetBlock { addr_from: m.addr_from@, chain: m.chain },
            Message::Inv(m) => MessageModel::Inv {
                addr_from: m.addr_from@,
                kind: m.kind@,
                items: texts(m.items@),
                chain: m.chain,
            },
            Message::Block(m) => MessageModel::Block {
                addr_from: m.addr_from@,
                block: m.block@,
                chain: m.chain,
            },
        }
    }
}

/// The command under which a message travels.
pub open spec fn message_command(m: MessageModel) -> Command {
    match m {
        MessageModel::Addr(_) => Command::Addr,
        MessageModel::Version { .. } => Command::Version,
        MessageModel::Tx { .. } => Command::Tx,
        MessageModel::GetData { .. } => Command::GetData,
        MessageModel::GetBlock { .. } => Command::GetBlocks,
        MessageModel::Inv { .. } => Command::Inv,
        MessageModel::Block { .. } => Command::Block,
    }
}

impl Message {
    /// The command under which this message travels.
    pub fn command(&self) -> (c: Command)
        ensures
            c == message_command(self@),
    {
        match self {
            Message::Addr(_) => Command::Addr,
            Message::Version(_) => Command::Version,
            Message::Tx(_) => Command::Tx,
            Message::GetData(_) => Command::GetData,
            Message::GetBlock(_) => Command::GetBlocks,
            Message::Inv(_) => Command::Inv,
            Message::Block(_) => Command::Block,
        }
    }
}

/// A message to be sent to the node at address `to`.
pub struct Outgoing {
    pub to: String,
    pub message: Message,
}

/// The mathematical value of a message to be sent.
pub struct OutgoingModel {
    pub to: Seq<char>,
    pub message: MessageModel,
}

impl View for Outgoing {
    type V = OutgoingModel;

    open spec fn view(&self) -> OutgoingModel {
        OutgoingModel { to: self.to@, message: self.message@ }
    }
}

/// The values of a sequence of messages to be sent.
pub open spec fn outgoing_models(v: Seq<Outgoing>) -> Seq<OutgoingModel> {
    v.map_values(|o: Outgoing| o@)
}

/// Each kind of message travels under the command field of its own wire
/// name: an address list under "addr", a version under "version", a
/// transaction under "tx", a data request under "getdata", a request for
/// block hashes under "getblocks", an inventory under "inv" and a block
/// under "block".
pub proof fn lemma_messages_travel_under_their_names(m: MessageModel)
    ensures
        m is Addr ==> command_field(command_name(message_command(m))) == encode_utf8("addr"@)
            + zero_bytes(8),
        m is Version ==> command_field(command_name(message_command(m))) == encode_utf8(
            "version"@,
        ) + zero_bytes(5),
        m is Tx ==> command_field(command_name(message_command(m))) == encode_utf8("tx"@)
            + zero_bytes(10),
        m is GetData ==> command_field(command_name(message_command(m))) == encode_utf8(
            "getdata"@,
        ) + zero_bytes(5),
        m is GetBlock ==> command_field(command_name(message_command(m))) == encode_utf8(
            "getblocks"@,
        ) + zero_bytes(3),
        m is Inv ==> command_field(command_name(message_command(m))) == encode_utf8("inv"@)
            + zero_bytes(9),
        m is Block ==> command_field(command_name(message_command(m))) == encode_utf8("block"@)
            + zero_bytes(7),
{
    lemma_wire_names(Seq::empty());
}

} // verus!
