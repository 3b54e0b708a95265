//! The state of a node and the decisions it takes on each message.
//!
//! The node keeps the addresses of the nodes it knows, the hashes of blocks
//! it still has to fetch, and a mempool of transactions. Each handler takes
//! what the node read from the network (and, where it needs them, values read
//! from the chain store) and returns the messages that the node sends, each
//! already addressed; sending them, and touching the chain store, is left to
//! the caller.

use vstd::prelude::*;
use vstd::string::*;
use crate::message::{texts, Message, MessageModel, Outgoing, OutgoingModel, outgoing_models, Blockmsg, GetBlocksmsg, GetDatamsg, Invmsg, Txmsg, Versionmsg};
use crate::text::str_equal;
use crate::block::Block;
use crate::transaction::{tx_models, Transaction, TxModel};

verus! {

/// The address of the node that every node knows from the start.
pub const KNOWN_NODE1: &'static str = "localhost:3000";

/// The protocol version that a node announces.
pub const VERSION: i32 = 1;

/// A node: its own address, the address that its mining rewards go to
/// (empty where it does not mine), the nodes it knows, the blocks it still
/// has to fetch, and its mempool.
pub struct Server {
    node_address: String,
    mining_address: String,
    known_nodes: Vec<String>,
    blocks_in_transit: Vec<String>,
    mempool: Vec<Transaction>,
}

/// The mathematical value of a node.
pub struct ServerModel {
    pub node_address: Seq<char>,
    pub mining_address: Seq<char>,
    pub known_nodes: Seq<Seq<char>>,
    pub blocks_in_transit: Seq<Seq<char>>,
    pub mempool: Seq<TxModel>,
}

impl View for Server {
    type V = ServerModel;

    closed spec fn view(&self) -> ServerModel {
        ServerModel {
            node_address: self.node_address@,
            mining_address: self.mining_address@,
            known_nodes: texts(self.known_nodes@),
            blocks_in_transit: texts(self.blocks_in_transit@),
            mempool: tx_models(self.mempool@),
        }
    }
}

/// No two transactions of the pool share an id.
pub open spec fn distinct_ids(pool: Seq<TxModel>) -> bool {
    forall|i: int, j: int|
        0 <= i < pool.len() && 0 <= j < pool.len() && i != j ==> #[trigger] pool[i].id
            != #[trigger] pool[j].id
}

/// A node is well formed: it knows each node once, and its mempool holds
/// each transaction id once.
pub open spec fn wf(s: ServerModel) -> bool {
    &&& s.known_nodes.no_duplicates()
    &&& distinct_ids(s.mempool)
}

/// The pool holds a transaction with this id.
pub open spec fn pool_has(pool: Seq<TxModel>, id: Seq<char>) -> bool {
    exists|i: int| 0 <= i < pool.len() && #[trigger] pool[i].id == id
}

/// The position of the transaction with this id in the pool.
pub open spec fn pool_position(pool: Seq<TxModel>, id: Seq<char>) -> int {
    choose|i: int| 0 <= i < pool.len() && #[trigger] pool[i].id == id
}

/// The transaction of the pool with this id, if any.
pub open spec fn pool_get(pool: Seq<TxModel>, id: Seq<char>) -> Option<TxModel> {
    if pool_has(pool, id) {
        Some(pool[pool_position(pool, id)])
    } else {
        None
    }
}

/// The pool after `tx` is stored under its id: it replaces the transaction
/// with the same id where there is one, and joins the pool otherwise.
pub open spec fn pool_insert(pool: Seq<TxModel>, tx: TxModel) -> Seq<TxModel> {
    if pool_has(pool, tx.id) {
        pool.update(pool_position(pool, tx.id), tx)
    } else {
        pool.push(tx)
    }
}

/// The known nodes after `addr` joins them.
pub open spec fn add_node(nodes: Seq<Seq<char>>, addr: Seq<char>) -> Seq<Seq<char>> {
    if nodes.contains(addr) {
        nodes
    } else {
        nodes.push(addr)
    }
}

/// The known nodes after `addr` leaves them.
pub open spec fn drop_node(nodes: Seq<Seq<char>>, addr: Seq<char>) -> Seq<Seq<char>> {
    if nodes.contains(addr) {
        nodes.remove(nodes.index_of(addr))
    } else {
        nodes
    }
}

/// What the node sends to `to`: the message, unless `to` is the node's own
/// address.
pub open spec fn send_to(node: Seq<char>, to: Seq<char>, m: MessageModel) -> Seq<OutgoingModel> {
    if to == node {
        seq![]
    } else {
        seq![OutgoingModel { to, message: m }]
    }
}

/// What the node sends when it sends `m` to each of `recipients` in turn,
/// passing over `except` where that is given.
pub open spec fn broadcast(
    node: Seq<char>,
    recipients: Seq<Seq<char>>,
    except: Option<Seq<char>>,
    m: MessageModel,
) -> Seq<OutgoingModel>
    decreases recipients.len(),
{
    if recipients.len() == 0 {
        seq![]
    } else {
        let rest = broadcast(node, recipients.drop_last(), except, m);
        if except == Some(recipients.last()) {
            rest
        } else {
            rest + send_to(node, recipients.last(), m)
        }
    }
}

/// Appends `more` to the messages `out`.
fn append_outgoing(out: &mut Vec<Outgoing>, more: Vec<Outgoing>)
    ensures
        outgoing_models(final(out)@) == outgoing_models(old(out)@) + outgoing_models(more@),
{
    let mut more = more;
    let ghost a = out@;
    let ghost b = more@;
    out.append(&mut more);
    assert(outgoing_models(out@) =~= outgoing_models(a) + outgoing_models(b));
}

/// The known nodes after each of `addrs` joins them in turn.
pub open spec fn add_all(nodes: Seq<Seq<char>>, addrs: Seq<Seq<char>>) -> Seq<Seq<char>>
    decreases addrs.len(),
{
    if addrs.len() == 0 {
        nodes
    } else {
        add_node(add_all(nodes, addrs.drop_last()), addrs.last())
    }
}

/// `items` without the entries equal to `x`, in order.
pub open spec fn without(items: Seq<Seq<char>>, x: Seq<char>) -> Seq<Seq<char>>
    decreases items.len(),
{
    if items.len() == 0 {
        items
    } else if items.last() == x {
        without(items.drop_last(), x)
    } else {
        without(items.drop_last(), x).push(items.last())
    }
}

/// What follows the receipt of a block, once it is stored.
pub enum BlockFollowUp {
    /// Ask for the next block still to fetch, then record the rest.
    RequestNext { requests: Vec<Outgoing>, in_transit: Vec<String> },
    /// Nothing is left to fetch: reindex the unspent outputs of `chain`.
    Reindex { chain: i32 },
}

/// What follows an inventory: the requests to send, then, where it is
/// given, the new list of blocks still to fetch.
pub struct InvFollowUp {
    pub requests: Vec<Outgoing>,
    pub in_transit: Option<Vec<String>>,
}

/// The answer to a request for data.
pub enum DataReply {
    /// Fetch the requested block from the chain store and send it back.
    FetchBlock,
    /// Send these messages.
    Reply(Vec<Outgoing>),
    /// The request is of an unknown kind: do nothing.
    Nothing,
}

/// What follows the receipt of a transaction.
pub enum TxFollowUp {
    /// Send these messages (the central node forwards the transaction).
    Forward(Vec<Outgoing>),
    /// Mine the mempool's transactions, round after round.
    Mine(MiningSession),
    /// Nothing more.
    Nothing,
}

/// The transactions still to mine in a mining session, from a copy of the
/// mempool taken when it began.
pub struct MiningSession {
    pending: Vec<Transaction>,
}

impl View for MiningSession {
    type V = Seq<TxModel>;

    closed spec fn view(&self) -> Seq<TxModel> {
        tx_models(self.pending@)
    }
}

/// The entries of `pool` whose flag is set, in order.
pub open spec fn selected(pool: Seq<TxModel>, flags: Seq<bool>) -> Seq<TxModel>
    decreases pool.len(),
{
    if pool.len() == 0 || flags.len() == 0 {
        seq![]
    } else if flags.last() {
        selected(pool.drop_last(), flags.drop_last()).push(pool.last())
    } else {
        selected(pool.drop_last(), flags.drop_last())
    }
}

/// The entries of `pool` whose id is not the id of any of `mined`.
pub open spec fn unmined(pool: Seq<TxModel>, mined: Seq<TxModel>) -> Seq<TxModel>
    decreases pool.len(),
{
    if pool.len() == 0 {
        pool
    } else if exists|j: int| 0 <= j < mined.len() && #[trigger] mined[j].id == pool.last().id {
        unmined(pool.drop_last(), mined)
    } else {
        unmined(pool.drop_last(), mined).push(pool.last())
    }
}

/// A copy of a vector of strings.
fn copy_strings(v: &Vec<String>) -> (c: Vec<String>)
    ensures
        texts(c@) == texts(v@),
{
    let mut c: Vec<String> = Vec::new();
    let mut i: usize = 0;
    while i < v.len()
        invariant
            i <= v@.len(),
            texts(c@) == texts(v@).take(i as int),
        decreases v@.len() - i,
    {
        let ghost before = c@;
        assert(texts(before).len() == before.len());
        assert(before.len() == i);
        let s = v[i].clone();
        c.push(s);
        assert(c@ == before.push(s));
        assert(texts(c@) =~= texts(v@).take(i + 1)) by {
            assert forall|k: int| 0 <= k < i + 1 implies texts(c@)[k] == texts(v@)[k] by {
                if k < i {
                    assert(texts(c@)[k] == c@[k]@);
                    assert(c@[k] == before[k]);
                    assert(texts(before)[k] == texts(v@).take(i as int)[k]);
                }
            }
        }
        i = i + 1;
    }
    assert(texts(v@).take(v@.len() as int) =~= texts(v@));
    c
}

/// Removing the entry at `i` of a sequence without duplicates removes the
/// first occurrence of that entry and leaves no duplicates.
proof fn lemma_remove_unique(s: Seq<Seq<char>>, i: int)
    requires
        s.no_duplicates(),
        0 <= i < s.len(),
    ensures
        s.index_of(s[i]) == i,
        s.remove(i).no_duplicates(),
{
    s.index_of_first_ensures(s[i]);
    let r = s.remove(i);
    assert forall|a: int, b: int| 0 <= a < b < r.len() implies r[a] != r[b] by {
        let a2 = if a < i { a } else { a + 1 };
        let b2 = if b < i { b } else { b + 1 };
        assert(r[a] == s[a2]);
        assert(r[b] == s[b2]);
    }
}

impl Server {
    /// A node listening at "localhost:<port>", that knows `KNOWN_NODE1` and
    /// nothing else, mining for `miner_address` where that is not empty.
    pub fn new(port: &str, miner_address: &str) -> (s: Server)
        ensures
            s@ == (ServerModel {
                node_address: "localhost:"@ + port@,
                mining_address: miner_address@,
                known_nodes: seq![KNOWN_NODE1@],
                blocks_in_transit: Seq::empty(),
                mempool: Seq::empty(),
            }),
            wf(s@),
    {
        let mut node_address = "localhost:".to_owned();
        node_address.append(port);
        let mut known_nodes: Vec<String> = Vec::new();
        known_nodes.push(KNOWN_NODE1.to_owned());
        let s = Server {
            node_address,
            mining_address: miner_address.to_owned(),
            known_nodes,
            blocks_in_transit: Vec::new(),
            mempool: Vec::new(),
        };
        assert(s@.known_nodes =~= seq![KNOWN_NODE1@]);
        assert(s@.blocks_in_transit =~= Seq::<Seq<char>>::empty());
        assert(s@.mempool =~= Seq::<TxModel>::empty());
        s
    }

    /// The node's own address.
    pub fn get_node_address(&self) -> (addr: String)
        ensures
            addr@ == self@.node_address,
    {
        self.node_address.clone()
    }

    /// The address that the node's mining rewards go to.
    pub fn get_mining_address(&self) -> (addr: String)
        ensures
            addr@ == self@.mining_address,
    {
        self.mining_address.clone()
    }

    /// The position of `addr` among the known nodes.
    fn find_node(&self, addr: &str) -> (pos: Option<usize>)
        ensures
            pos matches Some(i) ==> i < self@.known_nodes.len() && self@.known_nodes[i as int]
                == addr@,
            pos is None ==> !self@.known_nodes.contains(addr@),
    {
        let mut i: usize = 0;
        while i < self.known_nodes.len()
            invariant
                i <= self.known_nodes@.len(),
                forall|k: int| 0 <= k < i ==> self@.known_nodes[k] != addr@,
            decreases self.known_nodes@.len() - i,
        {
            if str_equal(self.known_nodes[i].as_str(), addr) {
                return Some(i);
            }
            i = i + 1;
        }
        None
    }

    /// Forgets the node at `addr`.
    pub fn remove_node(&mut self, addr: &str)
        requires
            wf(old(self)@),
        ensures
            final(self)@ == (ServerModel {
                known_nodes: drop_node(old(self)@.known_nodes, addr@),
                ..old(self)@
            }),
            wf(final(self)@),
    {
        match self.find_node(addr) {
            Some(i) => {
                let ghost before = self@.known_nodes;
                proof {
                    lemma_remove_unique(before, i as int);
                }
                self.known_nodes.remove(i);
                assert(self@.known_nodes =~= before.remove(i as int));
            },
            None => {},
        }
    }

    /// Learns the node at `addr`, where it is not known yet.
    pub fn add_nodes(&mut self, addr: &str)
        requires
            wf(old(self)@),
        ensures
            final(self)@ == (ServerModel {
                known_nodes: add_node(old(self)@.known_nodes, addr@),
                ..old(self)@
            }),
            wf(final(self)@),
    {
        match self.find_node(addr) {
            Some(_) => {},
            None => {
                let ghost before = self@.known_nodes;
                self.known_nodes.push(addr.to_owned());
                assert(self@.known_nodes =~= before.push(addr@));
            },
        }
    }

    /// The nodes it knows.
    pub fn get_known_nodes(&self) -> (nodes: Vec<String>)
        ensures
            texts(nodes@) == self@.known_nodes,
    {
        copy_strings(&self.known_nodes)
    }

    /// Whether it knows the node at `addr`.
    pub fn node_is_known(&self, addr: &str) -> (known: bool)
        ensures
            known == self@.known_nodes.contains(addr@),
    {
        self.find_node(addr).is_some()
    }

    /// Sets the hashes of the blocks still to fetch.
    pub fn replace_in_transit(&mut self, hashs: Vec<String>)
        requires
            wf(old(self)@),
        ensures
            final(self)@ == (ServerModel { blocks_in_transit: texts(hashs@), ..old(self)@ }),
            wf(final(self)@),
    {
        self.blocks_in_transit = hashs;
    }

    /// The hashes of the blocks still to fetch.
    pub fn get_in_transit(&self) -> (hashs: Vec<String>)
        ensures
            texts(hashs@) == self@.blocks_in_transit,
    {
        copy_strings(&self.blocks_in_transit)
    }
    /// The position of the transaction with id `id` in the mempool.
    fn find_tx(&self, id: &str) -> (pos: Option<usize>)
        requires
            wf(self@),
        ensures
            pos matches Some(i) ==> i < self@.mempool.len() && self@.mempool[i as int].id == id@
                && pool_has(self@.mempool, id@) && pool_position(self@.mempool, id@) == i,
            pos is None ==> !pool_has(self@.mempool, id@),
    {
        let mut i: usize = 0;
        while i < self.mempool.len()
            invariant
                wf(self@),
                i <= self.mempool@.len(),
                forall|k: int| 0 <= k < i ==> self@.mempool[k].id != id@,
            decreases self.mempool@.len() - i,
        {
            if str_equal(self.mempool[i].id.as_str(), id) {
                proof {
                    assert(self@.mempool[i as int].id == id@);
                    assert(pool_has(self@.mempool, id@));
                    let p = pool_position(self@.mempool, id@);
                    assert(self@.mempool[p].id == id@);
                    if p != i as int {
                        assert(self@.mempool[p].id != self@.mempool[i as int].id);
                    }
                }
                return Some(i);
            }
            i = i + 1;
        }
        None
    }

    /// The transaction in the mempool with id `addr`, if any.
    pub fn get_mempool_tx(&self, addr: &str) -> (tx: Option<Transaction>)
        requires
            wf(self@),
        ensures
            tx matches Some(t) ==> pool_get(self@.mempool, addr@) == Some(t@),
            tx is None ==> pool_get(self@.mempool, addr@) is None,
    {
        match self.find_tx(addr) {
            Some(i) => Some(self.mempool[i].duplicate()),
            None => None,
        }
    }

    /// The transactions of the mempool.
    pub fn get_mempool(&self) -> (pool: Vec<Transaction>)
        ensures
            tx_models(pool@) == self@.mempool,
    {
        let mut pool: Vec<Transaction> = Vec::new();
        let mut i: usize = 0;
        while i < self.mempool.len()
            invariant
                i <= self.mempool@.len(),
                tx_models(pool@) == self@.mempool.take(i as int),
            decreases self.mempool@.len() - i,
        {
            let ghost before = pool@;
            assert(tx_models(before).len() == before.len());
            let t = self.mempool[i].duplicate();
            pool.push(t);
            assert(tx_models(pool@) =~= self@.mempool.take(i + 1)) by {
                assert forall|k: int| 0 <= k < i + 1 implies tx_models(pool@)[k]
                    == self@.mempool.take(i + 1)[k] by {
                    if k < i {
                        assert(pool@[k] == before[k]);
                        assert(tx_models(before)[k] == self@.mempool.take(i as int)[k]);
                    }
                }
            }
            i = i + 1;
        }
        assert(self@.mempool.take(self@.mempool.len() as int) =~= self@.mempool);
        pool
    }

    /// Stores `tx` in the mempool under its id.
    pub fn insert_mempool(&mut self, tx: Transaction)
        requires
            wf(old(self)@),
        ensures
            final(self)@ == (ServerModel { mempool: pool_insert(old(self)@.mempool, tx@), ..old(self)@ }),
            wf(final(self)@),
    {
        let ghost before = self@.mempool;
        let ghost t = tx@;
        match self.find_tx(tx.id.as_str()) {
            Some(i) => {
                self.mempool.set(i, tx);
                assert(self@.mempool =~= before.update(i as int, t));
                assert(distinct_ids(self@.mempool)) by {
                    assert forall|a: int, b: int|
                        0 <= a < self@.mempool.len() && 0 <= b < self@.mempool.len() && a != b
                        implies #[trigger] self@.mempool[a].id != #[trigger] self@.mempool[b].id by {
                        assert(before[a].id != before[b].id);
                    }
                }
            },
            None => {
                self.mempool.push(tx);
                assert(self@.mempool =~= before.push(t));
                assert(distinct_ids(self@.mempool)) by {
                    assert forall|a: int, b: int|
                        0 <= a < self@.mempool.len() && 0 <= b < self@.mempool.len() && a != b
                        implies #[trigger] self@.mempool[a].id != #[trigger] self@.mempool[b].id by {
                        if a < before.len() && b < before.len() {
                            assert(before[a].id != before[b].id);
                        } else if a < before.len() {
                            assert(self@.mempool[a] == before[a]);
                        } else {
                            assert(self@.mempool[b] == before[b]);
                        }
                    }
                }
            },
        }
    }

    /// Empties the mempool.
    pub fn clear_mempool(&mut self)
        requires
            wf(old(self)@),
        ensures
            final(self)@ == (ServerModel { mempool: Seq::empty(), ..old(self)@ }),
            wf(final(self)@),
    {
        self.mempool = Vec::new();
        assert(self@.mempool =~= Seq::<TxModel>::empty());
    }
    /// The message to `addr`, unless `addr` is this node's own address.
    fn send_data(&self, addr: &str, message: Message) -> (out: Vec<Outgoing>)
        ensures
            outgoing_models(out@) == send_to(self@.node_address, addr@, message@),
    {
        let mut out: Vec<Outgoing> = Vec::new();
        if !str_equal(addr, self.node_address.as_str()) {
            out.push(Outgoing { to: addr.to_owned(), message });
        }
        assert(outgoing_models(out@) =~= send_to(self@.node_address, addr@, message@));
        out
    }

    /// Sends block `b` to `addr`.
    pub fn send_block(&self, addr: &str, b: &Block, chain: i32) -> (out: Vec<Outgoing>)
        ensures
            outgoing_models(out@) == send_to(
                self@.node_address,
                addr@,
                MessageModel::Block { addr_from: self@.node_address, block: b@, chain },
            ),
    {
        let data = Blockmsg { addr_from: self.node_address.clone(), block: b.duplicate(), chain };
        self.send_data(addr, Message::Block(data))
    }

    /// Sends the known nodes to `addr`.
    pub fn send_addr(&self, addr: &str) -> (out: Vec<Outgoing>)
        ensures
            outgoing_models(out@) == send_to(
                self@.node_address,
                addr@,
                MessageModel::Addr(self@.known_nodes),
            ),
    {
        let nodes = self.get_known_nodes();
        self.send_data(addr, Message::Addr(nodes))
    }

    /// Sends an inventory of `kind` ("block" or "tx") listing `items` to `addr`.
    pub fn send_inv(&self, addr: &str, kind: &str, items: Vec<String>, chain: i32) -> (out: Vec<
        Outgoing,
    >)
        ensures
            outgoing_models(out@) == send_to(
                self@.node_address,
                addr@,
                MessageModel::Inv {
                    addr_from: self@.node_address,
                    kind: kind@,
                    items: texts(items@),
                    chain,
                },
            ),
    {
        let data = Invmsg { addr_from: self.node_address.clone(), kind: kind.to_owned(), items, chain };
        self.send_data(addr, Message::Inv(data))
    }

    /// Asks `addr` for the hashes of its blocks.
    pub fn send_get_blocks(&self, addr: &str, chain: i32) -> (out: Vec<Outgoing>)
        ensures
            outgoing_models(out@) == send_to(
                self@.node_address,
                addr@,
                MessageModel::GetBlock { addr_from: self@.node_address, chain },
            ),
    {
        let data = GetBlocksmsg { addr_from: self.node_address.clone(), chain };
        self.send_data(addr, Message::GetBlock(data))
    }

    /// Asks `addr` for the block or transaction (`kind`) with hash or id `id`.
    pub fn send_get_data(&self, addr: &str, kind: &str, id: &str, chain: i32) -> (out: Vec<
        Outgoing,
    >)
        ensures
            outgoing_models(out@) == send_to(
                self@.node_address,
                addr@,
                MessageModel::GetData { addr_from: self@.node_address, kind: kind@, id: id@, chain },
            ),
    {
        let data = GetDatamsg {
            addr_from: self.node_address.clone(),
            kind: kind.to_owned(),
            id: id.to_owned(),
            chain,
        };
        self.send_data(addr, Message::GetData(data))
    }

    /// Sends transaction `tx` to `addr`.
    pub fn send_tx(&self, addr: &str, tx: &Transaction, chain: i32) -> (out: Vec<Outgoing>)
        ensures
            outgoing_models(out@) == send_to(
                self@.node_address,
                addr@,
                MessageModel::Tx { addr_from: self@.node_address, transaction: tx@, chain },
            ),
    {
        let data = Txmsg { addr_from: self.node_address.clone(), transaction: tx.duplicate(), chain };
        self.send_data(addr, Message::Tx(data))
    }

    /// Tells `addr` this node's protocol version and `best_height`, the
    /// height of its chain `chain`.
    pub fn send_version(&self, addr: &str, chain: i32, best_height: i32) -> (out: Vec<Outgoing>)
        ensures
            outgoing_models(out@) == send_to(
                self@.node_address,
                addr@,
                MessageModel::Version {
                    addr_from: self@.node_address,
                    version: VERSION,
                    best_height,
                    chain,
                },
            ),
    {
        let data = Versionmsg {
            addr_from: self.node_address.clone(),
            version: VERSION,
            best_height,
            chain,
        };
        self.send_data(addr, Message::Version(data))
    }
    /// Sends an inventory of `kind` listing `items` to each of `recipients`
    /// in turn, passing over `except` where that is given.
    fn broadcast_inv(
        &self,
        recipients: &Vec<String>,
        except: Option<&str>,
        kind: &str,
        items: &Vec<String>,
        chain: i32,
    ) -> (out: Vec<Outgoing>)
        ensures
            outgoing_models(out@) == broadcast(
                self@.node_address,
                texts(recipients@),
                match except {
                    Some(e) => Some(e@),
                    None => None,
                },
                MessageModel::Inv {
                    addr_from: self@.node_address,
                    kind: kind@,
                    items: texts(items@),
                    chain,
                },
            ),
    {
        let ghost ex = match except {
            Some(e) => Some(e@),
            None => None,
        };
        let ghost m = MessageModel::Inv {
            addr_from: self@.node_address,
            kind: kind@,
            items: texts(items@),
            chain,
        };
        let mut out: Vec<Outgoing> = Vec::new();
        let mut i: usize = 0;
        while i < recipients.len()
            invariant
                i <= recipients@.len(),
                outgoing_models(out@) == broadcast(
                    self@.node_address,
                    texts(recipients@).take(i as int),
                    ex,
                    m,
                ),
                ex == match except {
                    Some(e) => Some(e@),
                    None => None,
                },
                m == (MessageModel::Inv {
                    addr_from: self@.node_address,
                    kind: kind@,
                    items: texts(items@),
                    chain,
                }),
            decreases recipients@.len() - i,
        {
            let node = recipients[i].as_str();
            assert(texts(recipients@).take(i + 1).drop_last() =~= texts(recipients@).take(i as int));
            assert(texts(recipients@).take(i + 1).last() == node@);
            let skip = match except {
                Some(e) => str_equal(node, e),
                None => false,
            };
            if !skip {
                let more = self.send_inv(node, kind, copy_strings(items), chain);
                append_outgoing(&mut out, more);
            }
            i = i + 1;
        }
        assert(texts(recipients@).take(recipients@.len() as int) =~= texts(recipients@));
        out
    }

    /// Asks every known node for the hashes of its blocks of chain `chain`.
    pub fn request_blocks(&self, chain: i32) -> (out: Vec<Outgoing>)
        ensures
            outgoing_models(out@) == broadcast(
                self@.node_address,
                self@.known_nodes,
                None,
                MessageModel::GetBlock { addr_from: self@.node_address, chain },
            ),
    {
        let ghost m = MessageModel::GetBlock { addr_from: self@.node_address, chain };
        let mut out: Vec<Outgoing> = Vec::new();
        let mut i: usize = 0;
        while i < self.known_nodes.len()
            invariant
                i <= self.known_nodes@.len(),
                outgoing_models(out@) == broadcast(
                    self@.node_address,
                    self@.known_nodes.take(i as int),
                    None,
                    m,
                ),
                m == (MessageModel::GetBlock { addr_from: self@.node_address, chain }),
            decreases self.known_nodes@.len() - i,
        {
            assert(self@.known_nodes.take(i + 1).drop_last() =~= self@.known_nodes.take(i as int));
            assert(self@.known_nodes.take(i + 1).last() == self.known_nodes@[i as int]@);
            let more = self.send_get_blocks(self.known_nodes[i].as_str(), chain);
            append_outgoing(&mut out, more);
            i = i + 1;
        }
        assert(self@.known_nodes.take(self.known_nodes@.len() as int) =~= self@.known_nodes);
        out
    }

    /// Announces a block with hash `block_hash`, just mined on chain `chain`,
    /// to every known node but itself.
    pub fn announce_block(&self, block_hash: &str, chain: i32) -> (out: Vec<Outgoing>)
        ensures
            outgoing_models(out@) == broadcast(
                self@.node_address,
                self@.known_nodes,
                Some(self@.node_address),
                MessageModel::Inv {
                    addr_from: self@.node_address,
                    kind: "block"@,
                    items: seq![block_hash@],
                    chain,
                },
            ),
    {
        let mut items: Vec<String> = Vec::new();
        items.push(block_hash.to_owned());
        assert(texts(items@) =~= seq![block_hash@]);
        self.broadcast_inv(&self.known_nodes, Some(self.node_address.as_str()), "block", &items, chain)
    }
    /// Answers a version message. `my_best_height` is the height of this
    /// node's chain `msg.chain`, `reply_height` that of its chain `chain`.
    /// A node behind the sender asks it for its blocks; a node ahead of it
    /// tells it its own version; either way it sends the sender the nodes it
    /// knows, and then learns the sender.
    pub fn handle_version(
        &mut self,
        msg: &Versionmsg,
        chain: i32,
        my_best_height: i32,
        reply_height: i32,
    ) -> (out: Vec<Outgoing>)
        requires
            wf(old(self)@),
        ensures
            outgoing_models(out@) == (if my_best_height < msg.best_height {
                send_to(
                    old(self)@.node_address,
                    msg.addr_from@,
                    MessageModel::GetBlock { addr_from: old(self)@.node_address, chain },
                )
            } else if my_best_height > msg.best_height {
                send_to(
                    old(self)@.node_address,
                    msg.addr_from@,
                    MessageModel::Version {
                        addr_from: old(self)@.node_address,
                        version: VERSION,
                        best_height: reply_height,
                        chain,
                    },
                )
            } else {
                seq![]
            }) + send_to(
                old(self)@.node_address,
                msg.addr_from@,
                MessageModel::Addr(old(self)@.known_nodes),
            ),
            final(self)@ == (ServerModel {
                known_nodes: add_node(old(self)@.known_nodes, msg.addr_from@),
                ..old(self)@
            }),
            wf(final(self)@),
    {
        let from = msg.addr_from.as_str();
        let mut out: Vec<Outgoing> = if my_best_height < msg.best_height {
            self.send_get_blocks(from, chain)
        } else if my_best_height > msg.best_height {
            self.send_version(from, chain, reply_height)
        } else {
            let none: Vec<Outgoing> = Vec::new();
            assert(outgoing_models(none@) =~= seq![]);
            none
        };
        let addr = self.send_addr(from);
        append_outgoing(&mut out, addr);
        if !self.node_is_known(from) {
            self.add_nodes(from);
        }
        out
    }

    /// Learns each of the nodes `msg` in turn.
    pub fn handle_addr(&mut self, msg: &Vec<String>)
        requires
            wf(old(self)@),
        ensures
            final(self)@ == (ServerModel {
                known_nodes: add_all(old(self)@.known_nodes, texts(msg@)),
                ..old(self)@
            }),
            wf(final(self)@),
    {
        let mut i: usize = 0;
        while i < msg.len()
            invariant
                i <= msg@.len(),
                wf(self@),
                self@ == (ServerModel {
                    known_nodes: add_all(old(self)@.known_nodes, texts(msg@).take(i as int)),
                    ..old(self)@
                }),
            decreases msg@.len() - i,
        {
            assert(texts(msg@).take(i + 1).drop_last() =~= texts(msg@).take(i as int));
            assert(texts(msg@).take(i + 1).last() == msg@[i as int]@);
            self.add_nodes(msg[i].as_str());
            i = i + 1;
        }
        assert(texts(msg@).take(msg@.len() as int) =~= texts(msg@));
    }

    /// Decides what follows a block from `msg.addr_from`, once the caller has
    /// stored it: where blocks are still to fetch, ask the sender for the
    /// first of them and keep the rest; otherwise reindex chain `msg.chain`.
    pub fn handle_block(&self, msg: &Blockmsg, chain: i32) -> (next: BlockFollowUp)
        ensures
            self@.blocks_in_transit.len() > 0 ==> (next matches BlockFollowUp::RequestNext {
                requests,
                in_transit,
            } && outgoing_models(requests@) == send_to(
                self@.node_address,
                msg.addr_from@,
                MessageModel::GetData {
                    addr_from: self@.node_address,
                    kind: "block"@,
                    id: self@.blocks_in_transit[0],
                    chain,
                },
            ) && texts(in_transit@) == self@.blocks_in_transit.drop_first()),
            self@.blocks_in_transit.len() == 0 ==> next == (BlockFollowUp::Reindex {
                chain: msg.chain,
            }),
    {
        let mut in_transit = self.get_in_transit();
        if in_transit.len() > 0 {
            let requests = self.send_get_data(
                msg.addr_from.as_str(),
                "block",
                in_transit[0].as_str(),
                chain,
            );
            let ghost before = in_transit@;
            in_transit.remove(0);
            assert(texts(in_transit@) =~= texts(before).drop_first());
            BlockFollowUp::RequestNext { requests, in_transit }
        } else {
            BlockFollowUp::Reindex { chain: msg.chain }
        }
    }

    /// Answers an inventory. For blocks: asks the sender for the first one
    /// listed and keeps the others, without the first, as still to fetch.
    /// For a transaction: asks the sender for the first one listed unless
    /// the mempool already holds it under a non-empty id.
    pub fn handle_inv(&self, msg: &Invmsg, chain: i32) -> (next: InvFollowUp)
        requires
            wf(self@),
            msg.kind@ == "block"@ || msg.kind@ == "tx"@ ==> msg.items@.len() > 0,
        ensures
            msg.kind@ == "block"@ ==> (next.in_transit matches Some(t) && texts(t@) == without(
                texts(msg.items@),
                msg.items@[0]@,
            ) && outgoing_models(next.requests@) == send_to(
                self@.node_address,
                msg.addr_from@,
                MessageModel::GetData {
                    addr_from: self@.node_address,
                    kind: "block"@,
                    id: msg.items@[0]@,
                    chain,
                },
            )),
            msg.kind@ != "block"@ ==> next.in_transit is None,
            msg.kind@ == "tx"@ ==> outgoing_models(next.requests@) == (match pool_get(
                self@.mempool,
                msg.items@[0]@,
            ) {
                Some(t) => if t.id.len() == 0 {
                    send_to(
                        self@.node_address,
                        msg.addr_from@,
                        MessageModel::GetData {
                            addr_from: self@.node_address,
                            kind: "tx"@,
                            id: msg.items@[0]@,
                            chain,
                        },
                    )
                } else {
                    seq![]
                },
                None => send_to(
                    self@.node_address,
                    msg.addr_from@,
                    MessageModel::GetData {
                        addr_from: self@.node_address,
                        kind: "tx"@,
                        id: msg.items@[0]@,
                        chain,
                    },
                ),
            }),
            msg.kind@ != "block"@ && msg.kind@ != "tx"@ ==> next.requests@.len() == 0,
    {
        proof {
            reveal_strlit("block");
            reveal_strlit("tx");
            assert("block"@.len() != "tx"@.len());
        }
        let from = msg.addr_from.as_str();
        if str_equal(msg.kind.as_str(), "block") {
            let block_hash = msg.items[0].as_str();
            let requests = self.send_get_data(from, "block", block_hash, chain);
            let mut new_in_transit: Vec<String> = Vec::new();
            let mut i: usize = 0;
            while i < msg.items.len()
                invariant
                    i <= msg.items@.len(),
                    msg.items@.len() > 0,
                    block_hash@ == msg.items@[0]@,
                    texts(new_in_transit@) == without(texts(msg.items@).take(i as int), block_hash@),
                decreases msg.items@.len() - i,
            {
                assert(texts(msg.items@).take(i + 1).drop_last() =~= texts(msg.items@).take(i as int));
                assert(texts(msg.items@).take(i + 1).last() == msg.items@[i as int]@);
                if !str_equal(msg.items[i].as_str(), block_hash) {
                    let ghost before = new_in_transit@;
                    new_in_transit.push(msg.items[i].clone());
                    assert(texts(new_in_transit@) =~= texts(before).push(msg.items@[i as int]@));
                }
                i = i + 1;
            }
            assert(texts(msg.items@).take(msg.items@.len() as int) =~= texts(msg.items@));
            InvFollowUp { requests, in_transit: Some(new_in_transit) }
        } else if str_equal(msg.kind.as_str(), "tx") {
            let txid = msg.items[0].as_str();
            assert(msg.kind@ == "tx"@);
            let requests = match self.get_mempool_tx(txid) {
                Some(tx) => {
                    assert(pool_get(self@.mempool, msg.items@[0]@) == Some(tx@));
                    if tx.id.as_str().is_empty() {
                        self.send_get_data(from, "tx", txid, chain)
                    } else {
                        let none: Vec<Outgoing> = Vec::new();
                        assert(outgoing_models(none@) =~= seq![]);
                        none
                    }
                },
                None => self.send_get_data(from, "tx", txid, chain),
            };
            InvFollowUp { requests, in_transit: None }
        } else {
            InvFollowUp { requests: Vec::new(), in_transit: None }
        }
    }

    /// Answers a request for block hashes with an inventory of `block_hashs`,
    /// the hashes of this node's chain `msg.chain`.
    pub fn handle_get_blocks(&self, msg: &GetBlocksmsg, chain: i32, block_hashs: Vec<String>) -> (out:
        Vec<Outgoing>)
        ensures
            outgoing_models(out@) == send_to(
                self@.node_address,
                msg.addr_from@,
                MessageModel::Inv {
                    addr_from: self@.node_address,
                    kind: "block"@,
                    items: texts(block_hashs@),
                    chain,
                },
            ),
    {
        self.send_inv(msg.addr_from.as_str(), "block", block_hashs, chain)
    }

    /// Answers a request for data: a block is fetched from the chain store
    /// by the caller; a transaction is sent from the mempool.
    pub fn handle_get_data(&self, msg: &GetDatamsg) -> (reply: DataReply)
        requires
            wf(self@),
            msg.kind@ != "block"@ && msg.kind@ == "tx"@ ==> pool_has(self@.mempool, msg.id@),
        ensures
            msg.kind@ == "block"@ ==> reply is FetchBlock,
            msg.kind@ != "block"@ && msg.kind@ == "tx"@ ==> (reply matches DataReply::Reply(out)
                && outgoing_models(out@) == send_to(
                self@.node_address,
                msg.addr_from@,
                MessageModel::Tx {
                    addr_from: self@.node_address,
                    transaction: pool_get(self@.mempool, msg.id@)->Some_0,
                    chain: msg.chain,
                },
            )),
            msg.kind@ != "block"@ && msg.kind@ != "tx"@ ==> reply is Nothing,
    {
        if str_equal(msg.kind.as_str(), "block") {
            DataReply::FetchBlock
        } else if str_equal(msg.kind.as_str(), "tx") {
            match self.get_mempool_tx(msg.id.as_str()) {
                Some(tx) => DataReply::Reply(self.send_tx(msg.addr_from.as_str(), &tx, msg.chain)),
                None => {
                    proof {
                        assert(false);
                    }
                    DataReply::Nothing
                },
            }
        } else {
            DataReply::Nothing
        }
    }

    /// Takes a transaction into the mempool. The central node
    /// (`KNOWN_NODE1`) forwards its id to every other node it knows but the
    /// sender; another node that mines begins a mining session over its
    /// mempool.
    pub fn handle_tx(&mut self, msg: &Txmsg) -> (next: TxFollowUp)
        requires
            wf(old(self)@),
        ensures
            final(self)@ == (ServerModel {
                mempool: pool_insert(old(self)@.mempool, msg.transaction@),
                ..old(self)@
            }),
            wf(final(self)@),
            old(self)@.node_address == KNOWN_NODE1@ ==> (next matches TxFollowUp::Forward(out)
                && outgoing_models(out@) == broadcast(
                old(self)@.node_address,
                old(self)@.known_nodes,
                Some(msg.addr_from@),
                MessageModel::Inv {
                    addr_from: old(self)@.node_address,
                    kind: "tx"@,
                    items: seq![msg.transaction@.id],
                    chain: msg.chain,
                },
            )),
            old(self)@.node_address != KNOWN_NODE1@ ==> (if final(self)@.mempool.len() >= 1
                && old(self)@.mining_address.len() > 0 {
                next matches TxFollowUp::Mine(session) && session@ == final(self)@.mempool
            } else {
                next is Nothing
            }),
    {
        self.insert_mempool(msg.transaction.duplicate());
        if str_equal(self.node_address.as_str(), KNOWN_NODE1) {
            let mut items: Vec<String> = Vec::new();
            items.push(msg.transaction.id.clone());
            assert(texts(items@) =~= seq![msg.transaction@.id]);
            let known = self.get_known_nodes();
            TxFollowUp::Forward(
                self.broadcast_inv(&known, Some(msg.addr_from.as_str()), "tx", &items, msg.chain),
            )
        } else {
            let pending = self.get_mempool();
            if pending.len() >= 1 && !self.mining_address.as_str().is_empty() {
                TxFollowUp::Mine(MiningSession { pending })
            } else {
                TxFollowUp::Nothing
            }
        }
    }

    /// What a node sends when it starts, for chain `chain` whose height in
    /// its store is `best_height`: with no chain yet (height -1) it asks
    /// every known node for its blocks; otherwise it tells `KNOWN_NODE1` its
    /// version and height.
    pub fn sync_on_start(&self, chain: i32, best_height: i32) -> (out: Vec<Outgoing>)
        ensures
            best_height == -1 ==> outgoing_models(out@) == broadcast(
                self@.node_address,
                self@.known_nodes,
                None,
                MessageModel::GetBlock { addr_from: self@.node_address, chain },
            ),
            best_height != -1 ==> outgoing_models(out@) == send_to(
                self@.node_address,
                KNOWN_NODE1@,
                MessageModel::Version {
                    addr_from: self@.node_address,
                    version: VERSION,
                    best_height,
                    chain,
                },
            ),
    {
        if best_height == -1 {
            self.request_blocks(chain)
        } else {
            self.send_version(KNOWN_NODE1, chain, best_height)
        }
    }

    /// What a wallet sends to submit transaction `tx` to chain `chain`: the
    /// transaction, from "localhost:7000" to `KNOWN_NODE1`.
    pub fn send_transaction(tx: &Transaction, chain: i32) -> (out: Vec<Outgoing>)
        ensures
            outgoing_models(out@) == send_to(
                "localhost:"@ + "7000"@,
                KNOWN_NODE1@,
                MessageModel::Tx {
                    addr_from: "localhost:"@ + "7000"@,
                    transaction: tx@,
                    chain,
                },
            ),
    {
        let server = Server::new("7000", "");
        server.send_tx(KNOWN_NODE1, tx, chain)
    }
}

impl MiningSession {
    /// The transactions still to mine.
    pub fn pending(&self) -> (txs: &Vec<Transaction>)
        ensures
            tx_models(txs@) == self@,
    {
        &self.pending
    }

    /// The transactions to mine in the next round: those still pending that
    /// the chain store verified (`verified[i]` for the `i`-th pending one),
    /// in order; `None` where it verified none, which ends the session.
    pub fn select(&self, verified: &Vec<bool>) -> (txs: Option<Vec<Transaction>>)
        requires
            verified@.len() == self@.len(),
        ensures
            txs is None <==> selected(self@, verified@).len() == 0,
            txs matches Some(t) ==> tx_models(t@) == selected(self@, verified@),
    {
        let mut txs: Vec<Transaction> = Vec::new();
        let mut i: usize = 0;
        while i < self.pending.len()
            invariant
                i <= self.pending@.len(),
                verified@.len() == self.pending@.len(),
                tx_models(txs@) == selected(self@.take(i as int), verified@.take(i as int)),
            decreases self.pending@.len() - i,
        {
            assert(self@.take(i + 1).drop_last() =~= self@.take(i as int));
            assert(verified@.take(i + 1).drop_last() =~= verified@.take(i as int));
            if verified[i] {
                let ghost before = txs@;
                txs.push(self.pending[i].duplicate());
                assert(tx_models(txs@) =~= tx_models(before).push(self@[i as int]));
            }
            i = i + 1;
        }
        assert(self@.take(self@.len() as int) =~= self@);
        assert(verified@.take(verified@.len() as int) =~= verified@);
        if txs.len() == 0 {
            None
        } else {
            Some(txs)
        }
    }

    /// Drops from the pending transactions those whose id is the id of one
    /// of `mined`, the transactions of the block just mined; tells whether
    /// none is left, which ends the session.
    pub fn record_mined(&mut self, mined: &Vec<Transaction>) -> (done: bool)
        ensures
            final(self)@ == unmined(old(self)@, tx_models(mined@)),
            done == (final(self)@.len() == 0),
    {
        let ghost pool = self@;
        let ghost m = tx_models(mined@);
        let mut kept: Vec<Transaction> = Vec::new();
        let mut i: usize = 0;
        while i < self.pending.len()
            invariant
                i <= self.pending@.len(),
                pool == tx_models(self.pending@),
                m == tx_models(mined@),
                tx_models(kept@) == unmined(pool.take(i as int), m),
            decreases self.pending@.len() - i,
        {
            assert(pool.take(i + 1).drop_last() =~= pool.take(i as int));
            let id = self.pending[i].id.as_str();
            let mut found = false;
            let mut j: usize = 0;
            while j < mined.len()
                invariant
                    j <= mined@.len(),
                    m == tx_models(mined@),
                    id@ == pool[i as int].id,
                    found <==> exists|k: int| 0 <= k < j && #[trigger] m[k].id == id@,
                decreases mined@.len() - j,
            {
                if str_equal(mined[j].id.as_str(), id) {
                    found = true;
                }
                proof {
                    if found {
                        assert(exists|k: int| 0 <= k < j + 1 && #[trigger] m[k].id == id@) by {
                            if m[j as int].id == id@ {
                                assert(0 <= j < j + 1 && m[j as int].id == id@);
                            }
                        }
                    }
                }
                j = j + 1;
            }
            assert(pool.take(i + 1).last() == pool[i as int]);
            if !found {
                let ghost before = kept@;
                kept.push(self.pending[i].duplicate());
                assert(tx_models(kept@) =~= tx_models(before).push(pool[i as int]));
            }
            i = i + 1;
        }
        assert(pool.take(pool.len() as int) =~= pool);
        self.pending = kept;
        self.pending.len() == 0
    }
}

/// Dropping the mined transactions never lengthens the pending ones.
proof fn lemma_unmined_len(pool: Seq<TxModel>, mined: Seq<TxModel>)
    ensures
        unmined(pool, mined).len() <= pool.len(),
    decreases pool.len(),
{
    if pool.len() > 0 {
        lemma_unmined_len(pool.drop_last(), mined);
    }
}

/// A pending transaction whose id is mined shortens the pending ones.
proof fn lemma_unmined_shrinks(pool: Seq<TxModel>, mined: Seq<TxModel>, i: int)
    requires
        0 <= i < pool.len(),
        exists|j: int| 0 <= j < mined.len() && #[trigger] mined[j].id == pool[i].id,
    ensures
        unmined(pool, mined).len() < pool.len(),
    decreases pool.len(),
{
    lemma_unmined_len(pool.drop_last(), mined);
    if i < pool.len() - 1 {
        assert(pool.drop_last()[i] == pool[i]);
        lemma_unmined_shrinks(pool.drop_last(), mined, i);
    }
}

/// Each transaction selected is one of the pool's.
proof fn lemma_selected_from_pool(pool: Seq<TxModel>, flags: Seq<bool>, k: int)
    requires
        0 <= k < selected(pool, flags).len(),
    ensures
        exists|i: int| 0 <= i < pool.len() && #[trigger] pool[i] == selected(pool, flags)[k],
    decreases pool.len(),
{
    if pool.len() > 0 && flags.len() > 0 {
        let rest = selected(pool.drop_last(), flags.drop_last());
        if flags.last() && k == rest.len() {
            assert(pool[pool.len() - 1] == selected(pool, flags)[k]);
        } else {
            lemma_selected_from_pool(pool.drop_last(), flags.drop_last(), k);
            let i = choose|i: int| 0 <= i < pool.drop_last().len() && #[trigger] pool.drop_last()[i]
                == rest[k];
            assert(pool[i] == pool.drop_last()[i]);
        }
    }
}

/// Each mining round that mines what it selected, with any transactions
/// added (the coinbase), leaves fewer transactions pending: a mining
/// session ends.
pub proof fn lemma_mining_round_progress(pending: Seq<TxModel>, verified: Seq<bool>, extra: Seq<TxModel>)
    requires
        selected(pending, verified).len() > 0,
    ensures
        unmined(pending, selected(pending, verified) + extra).len() < pending.len(),
{
    let sel = selected(pending, verified);
    let mined = sel + extra;
    lemma_selected_from_pool(pending, verified, 0);
    let i = choose|i: int| 0 <= i < pending.len() && #[trigger] pending[i] == sel[0];
    assert(mined[0] == sel[0]);
    assert(0 <= 0 < mined.len() && mined[0].id == pending[i].id);
    lemma_unmined_shrinks(pending, mined, i);
}

/// A node learns the node it adds, and forgets no other.
pub proof fn lemma_added_node_is_known(nodes: Seq<Seq<char>>, addr: Seq<char>, other: Seq<char>)
    ensures
        add_node(nodes, addr).contains(addr),
        add_node(nodes, addr).contains(other) <==> (nodes.contains(other) || other == addr),
        nodes.no_duplicates() ==> add_node(nodes, addr).no_duplicates(),
{
    if !nodes.contains(addr) {
        let n = nodes.push(addr);
        assert(n[nodes.len() as int] == addr);
        if nodes.contains(other) {
            let k = choose|k: int| 0 <= k < nodes.len() && nodes[k] == other;
            assert(n[k] == other);
        }
        if n.contains(other) && other != addr {
            let k = choose|k: int| 0 <= k < n.len() && n[k] == other;
            assert(nodes[k] == other);
        }
    }
}

/// A node forgets the node it drops, and no other.
pub proof fn lemma_dropped_node_is_unknown(nodes: Seq<Seq<char>>, addr: Seq<char>, other: Seq<char>)
    requires
        nodes.no_duplicates(),
    ensures
        !drop_node(nodes, addr).contains(addr),
        other != addr ==> (drop_node(nodes, addr).contains(other) <==> nodes.contains(other)),
{
    if nodes.contains(addr) {
        let i = nodes.index_of(addr);
        nodes.index_of_first_ensures(addr);
        let d = nodes.remove(i);
        if d.contains(addr) {
            let k = choose|k: int| 0 <= k < d.len() && d[k] == addr;
            let k2 = if k < i { k } else { k + 1 };
            assert(nodes[k2] == addr);
        }
        if other != addr {
            if nodes.contains(other) {
                let k = choose|k: int| 0 <= k < nodes.len() && nodes[k] == other;
                let k2 = if k < i { k } else { k - 1 };
                assert(d[k2] == other);
            }
            if d.contains(other) {
                let k = choose|k: int| 0 <= k < d.len() && d[k] == other;
                let k2 = if k < i { k } else { k + 1 };
                assert(nodes[k2] == other);
            }
        }
    }
}

/// The position of an id held by a pool of distinct ids is its only one.
proof fn lemma_pool_position_unique(pool: Seq<TxModel>, i: int)
    requires
        distinct_ids(pool),
        0 <= i < pool.len(),
    ensures
        pool_has(pool, pool[i].id),
        pool_position(pool, pool[i].id) == i,
{
    assert(pool[i].id == pool[i].id);
    let p = pool_position(pool, pool[i].id);
    if p != i {
        assert(pool[p].id != pool[i].id);
    }
}

/// A transaction stored in the mempool is found under its id; the
/// transactions under other ids stay as they were; ids stay distinct.
pub proof fn lemma_mempool_insert_then_get(pool: Seq<TxModel>, tx: TxModel, other: Seq<char>)
    requires
        distinct_ids(pool),
    ensures
        distinct_ids(pool_insert(pool, tx)),
        pool_get(pool_insert(pool, tx), tx.id) == Some(tx),
        other != tx.id ==> pool_get(pool_insert(pool, tx), other) == pool_get(pool, other),
{
    let q = pool_insert(pool, tx);
    let pos = if pool_has(pool, tx.id) {
        pool_position(pool, tx.id)
    } else {
        pool.len() as int
    };
    assert(q[pos] == tx);
    assert forall|a: int, b: int|
        0 <= a < q.len() && 0 <= b < q.len() && a != b implies #[trigger] q[a].id != #[trigger] q[b].id by {
        if a != pos && b != pos {
            assert(q[a] == pool[a] && q[b] == pool[b]);
        } else if a == pos {
            assert(q[b] == pool[b]);
            if pool[b].id == tx.id {
                assert(pool_has(pool, tx.id));
                lemma_pool_position_unique(pool, b);
            }
        } else {
            assert(q[a] == pool[a]);
            if pool[a].id == tx.id {
                assert(pool_has(pool, tx.id));
                lemma_pool_position_unique(pool, a);
            }
        }
    }
    lemma_pool_position_unique(q, pos);
    if other != tx.id {
        if pool_has(pool, other) {
            let k = pool_position(pool, other);
            assert(q[k] == pool[k]);
            lemma_pool_position_unique(q, k);
        }
        if pool_has(q, other) {
            let k = pool_position(q, other);
            assert(q[k] == pool[k]);
            assert(pool_has(pool, other));
            lemma_pool_position_unique(pool, k);
        }
    }
}

/// An emptied mempool holds no transaction.
pub proof fn lemma_cleared_mempool_is_empty(id: Seq<char>)
    ensures
        pool_get(Seq::<TxModel>::empty(), id) is None,
{
}

/// A node never sends a message to its own address, nor, when it passes
/// over a node (the sender of a forwarded transaction), to that node.
pub proof fn lemma_never_sends_to_itself(
    node: Seq<char>,
    recipients: Seq<Seq<char>>,
    except: Option<Seq<char>>,
    m: MessageModel,
)
    ensures
        forall|i: int|
            0 <= i < broadcast(node, recipients, except, m).len() ==> (#[trigger] broadcast(
                node,
                recipients,
                except,
                m,
            )[i]).to != node,
        forall|i: int|
            0 <= i < broadcast(node, recipients, except, m).len() ==> except != Some(
                (#[trigger] broadcast(node, recipients, except, m)[i]).to,
            ),
    decreases recipients.len(),
{
    if recipients.len() > 0 {
        lemma_never_sends_to_itself(node, recipients.drop_last(), except, m);
    }
}

/// What a pushed sequence contains.
proof fn lemma_push_contains(s: Seq<Seq<char>>, a: Seq<char>, y: Seq<char>)
    ensures
        s.push(a).contains(y) <==> (s.contains(y) || a == y),
{
    if s.contains(y) {
        let k = choose|k: int| 0 <= k < s.len() && s[k] == y;
        assert(s.push(a)[k] == y);
    }
    if a == y {
        assert(s.push(a)[s.len() as int] == y);
    }
    if s.push(a).contains(y) && a != y {
        let k = choose|k: int| 0 <= k < s.push(a).len() && s.push(a)[k] == y;
        assert(s[k] == y);
    }
}

/// After an inventory of blocks, the block asked for is not among those
/// still to fetch, and the other blocks listed all are.
pub proof fn lemma_requested_block_not_in_transit(items: Seq<Seq<char>>, x: Seq<char>, y: Seq<char>)
    ensures
        !without(items, x).contains(x),
        y != x ==> (without(items, x).contains(y) <==> items.contains(y)),
    decreases items.len(),
{
    if items.len() > 0 {
        let d = items.drop_last();
        lemma_requested_block_not_in_transit(d, x, y);
        assert(d.push(items.last()) =~= items);
        lemma_push_contains(d, items.last(), y);
        lemma_push_contains(d, items.last(), x);
        let rest = without(d, x);
        lemma_push_contains(rest, items.last(), y);
        lemma_push_contains(rest, items.last(), x);
    }
}

/// After the nodes of an address list are learned, every address in the
/// list is known, every node known before still is, no other node is, and
/// no node is known twice.
pub proof fn lemma_addr_learns_every_listed_node(
    nodes: Seq<Seq<char>>,
    addrs: Seq<Seq<char>>,
    x: Seq<char>,
)
    ensures
        addrs.contains(x) ==> add_all(nodes, addrs).contains(x),
        nodes.contains(x) ==> add_all(nodes, addrs).contains(x),
        add_all(nodes, addrs).contains(x) ==> nodes.contains(x) || addrs.contains(x),
        nodes.no_duplicates() ==> add_all(nodes, addrs).no_duplicates(),
    decreases addrs.len(),
{
    if addrs.len() > 0 {
        let d = addrs.drop_last();
        let a = addrs.last();
        lemma_addr_learns_every_listed_node(nodes, d, x);
        assert(d.push(a) =~= addrs);
        lemma_push_contains(d, a, x);
        lemma_added_node_is_known(add_all(nodes, d), a, x);
    }
}

/// The number of flags that are set.
pub open spec fn flag_count(flags: Seq<bool>) -> nat
    decreases flags.len(),
{
    if flags.len() == 0 {
        0
    } else {
        flag_count(flags.drop_last()) + if flags.last() {
            1nat
        } else {
            0nat
        }
    }
}

/// `x` is a pending transaction of `pool` whose flag is set.
pub open spec fn verified_in(pool: Seq<TxModel>, flags: Seq<bool>, x: TxModel) -> bool {
    exists|i: int| 0 <= i < pool.len() && flags[i] && #[trigger] pool[i] == x
}

/// A mining round takes every verified pending transaction and no other:
/// as many as there are set flags, each pending transaction whose flag is
/// set among them, and each of them a pending transaction whose flag is set.
pub proof fn lemma_selection_is_the_verified_transactions(pool: Seq<TxModel>, flags: Seq<bool>)
    requires
        pool.len() == flags.len(),
    ensures
        selected(pool, flags).len() == flag_count(flags),
        forall|i: int| 0 <= i < pool.len() && flags[i] ==> selected(pool, flags).contains(pool[i]),
        forall|k: int|
            0 <= k < selected(pool, flags).len() ==> verified_in(
                pool,
                flags,
                #[trigger] selected(pool, flags)[k],
            ),
    decreases pool.len(),
{
    if pool.len() > 0 {
        let p = pool.drop_last();
        let f = flags.drop_last();
        lemma_selection_is_the_verified_transactions(p, f);
        let rest = selected(p, f);
        let sel = selected(pool, flags);
        assert forall|i: int| 0 <= i < pool.len() && flags[i] implies sel.contains(pool[i]) by {
            if i == pool.len() - 1 {
                assert(sel[sel.len() - 1] == pool[i]);
            } else {
                assert(p[i] == pool[i] && f[i] == flags[i]);
                assert(rest.contains(p[i]));
                let k = choose|k: int| 0 <= k < rest.len() && rest[k] == p[i];
                assert(sel[k] == pool[i]);
            }
        }
        assert forall|k: int| 0 <= k < sel.len() implies verified_in(pool, flags, #[trigger] sel[k]) by {
            if k < rest.len() {
                assert(sel[k] == rest[k]);
                assert(verified_in(p, f, rest[k]));
                let i = choose|i: int| 0 <= i < p.len() && f[i] && #[trigger] p[i] == rest[k];
                assert(pool[i] == p[i] && flags[i] == f[i]);
            } else {
                let last = pool.len() - 1;
                assert(flags.last());
                assert(flags[last]);
                assert(pool[last] == sel[k]);
            }
        }
    } else {
        assert(selected(pool, flags) =~= Seq::<TxModel>::empty());
    }
}

} // verus!
