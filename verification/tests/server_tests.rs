use redstone::block::Block;
use redstone::message::{Blockmsg, GetBlocksmsg, GetDatamsg, Invmsg, Message, Outgoing, Txmsg, Versionmsg};
use redstone::server::{BlockFollowUp, DataReply, Server, TxFollowUp, KNOWN_NODE1, VERSION};
use redstone::transaction::Transaction;

fn tx(id: &str) -> Transaction {
    Transaction::new(id.to_string(), id.as_bytes().to_vec())
}

fn sorted(mut v: Vec<String>) -> Vec<String> {
    v.sort();
    v
}

fn targets(out: &[Outgoing]) -> Vec<String> {
    out.iter().map(|o| o.to.clone()).collect()
}

#[test]
fn new_server_knows_the_central_node() {
    let s = Server::new("3001", "miner");
    assert_eq!(s.get_known_nodes(), vec![KNOWN_NODE1.to_string()]);
    assert!(s.get_in_transit().is_empty());
    assert!(s.get_mempool().is_empty());
    let out = s.send_get_blocks("localhost:3002", 1);
    match &out[0].message {
        Message::GetBlock(m) => assert_eq!(m.addr_from, "localhost:3001"),
        _ => panic!("wrong message"),
    }
}

#[test]
fn known_nodes_add_and_remove() {
    let mut s = Server::new("3001", "");
    s.add_nodes("localhost:4000");
    s.add_nodes("localhost:4000");
    assert!(s.node_is_known("localhost:4000"));
    assert_eq!(s.get_known_nodes().len(), 2);
    s.remove_node(KNOWN_NODE1);
    assert!(!s.node_is_known(KNOWN_NODE1));
    assert_eq!(s.get_known_nodes(), vec!["localhost:4000".to_string()]);
    s.remove_node("localhost:9999");
    assert_eq!(s.get_known_nodes().len(), 1);
}

#[test]
fn mempool_insert_get_replace_clear() {
    let mut s = Server::new("3001", "");
    s.insert_mempool(tx("a"));
    s.insert_mempool(tx("b"));
    assert_eq!(s.get_mempool().len(), 2);
    assert_eq!(s.get_mempool_tx("a").unwrap().data, b"a".to_vec());
    s.insert_mempool(Transaction::new("a".to_string(), vec![42]));
    assert_eq!(s.get_mempool().len(), 2);
    assert_eq!(s.get_mempool_tx("a").unwrap().data, vec![42]);
    assert!(s.get_mempool_tx("c").is_none());
    s.clear_mempool();
    assert!(s.get_mempool().is_empty());
    assert!(s.get_mempool_tx("a").is_none());
}

#[test]
fn in_transit_replace() {
    let mut s = Server::new("3001", "");
    s.replace_in_transit(vec!["h1".to_string(), "h2".to_string()]);
    assert_eq!(s.get_in_transit(), vec!["h1".to_string(), "h2".to_string()]);
}

#[test]
fn nothing_is_sent_to_the_node_itself() {
    let s = Server::new("3000", "");
    assert!(s.send_get_blocks(KNOWN_NODE1, 1).is_empty());
    assert!(s.send_addr(KNOWN_NODE1).is_empty());
    assert!(s.request_blocks(1).is_empty());
    assert!(s.announce_block("h", 1).is_empty());
}

fn version(from: &str, height: i32) -> Versionmsg {
    Versionmsg { addr_from: from.to_string(), version: VERSION, best_height: height, chain: 2 }
}

#[test]
fn version_from_a_longer_chain_asks_for_blocks() {
    let mut s = Server::new("3001", "");
    let out = s.handle_version(&version("localhost:5000", 7), 1, 3, 4);
    assert_eq!(out.len(), 2);
    assert_eq!(targets(&out), vec!["localhost:5000", "localhost:5000"]);
    match &out[0].message {
        Message::GetBlock(m) => {
            assert_eq!(m.addr_from, "localhost:3001");
            assert_eq!(m.chain, 1);
        }
        _ => panic!("expected getblocks"),
    }
    match &out[1].message {
        Message::Addr(nodes) => assert_eq!(nodes, &vec![KNOWN_NODE1.to_string()]),
        _ => panic!("expected addr"),
    }
    assert!(s.node_is_known("localhost:5000"));
}

#[test]
fn version_from_a_shorter_chain_answers_with_version() {
    let mut s = Server::new("3001", "");
    let out = s.handle_version(&version("localhost:5000", 1), 1, 3, 4);
    assert_eq!(out.len(), 2);
    match &out[0].message {
        Message::Version(m) => {
            assert_eq!(m.best_height, 4);
            assert_eq!(m.version, VERSION);
            assert_eq!(m.chain, 1);
        }
        _ => panic!("expected version"),
    }
}

#[test]
fn version_from_an_equal_chain_sends_addresses_only() {
    let mut s = Server::new("3001", "");
    s.add_nodes("localhost:5000");
    let out = s.handle_version(&version("localhost:5000", 3), 1, 3, 3);
    assert_eq!(out.len(), 1);
    assert!(matches!(out[0].message, Message::Addr(_)));
    assert_eq!(s.get_known_nodes().len(), 2);
}

#[test]
fn addr_message_adds_each_node() {
    let mut s = Server::new("3001", "");
    s.handle_addr(&vec!["a:1".to_string(), "b:2".to_string(), "a:1".to_string()]);
    assert_eq!(
        s.get_known_nodes(),
        vec![KNOWN_NODE1.to_string(), "a:1".to_string(), "b:2".to_string()]
    );
}

fn some_block() -> Block {
    Block::from_parts("Chain 1".into(), 1, vec![], "".into(), "".into(), "h".into(), 0, 1)
}

#[test]
fn block_with_nothing_in_transit_asks_for_reindex() {
    let s = Server::new("3001", "");
    let msg = Blockmsg { addr_from: "n:1".into(), block: some_block(), chain: 2 };
    match s.handle_block(&msg, 1) {
        BlockFollowUp::Reindex { chain } => assert_eq!(chain, 2),
        _ => panic!("expected reindex"),
    }
}

#[test]
fn block_with_more_in_transit_requests_the_next() {
    let mut s = Server::new("3001", "");
    s.replace_in_transit(vec!["h2".into(), "h3".into()]);
    let msg = Blockmsg { addr_from: "n:1".into(), block: some_block(), chain: 2 };
    match s.handle_block(&msg, 1) {
        BlockFollowUp::RequestNext { requests, in_transit } => {
            assert_eq!(in_transit, vec!["h3".to_string()]);
            assert_eq!(targets(&requests), vec!["n:1"]);
            match &requests[0].message {
                Message::GetData(m) => {
                    assert_eq!(m.kind, "block");
                    assert_eq!(m.id, "h2");
                    assert_eq!(m.chain, 1);
                }
                _ => panic!("expected getdata"),
            }
        }
        _ => panic!("expected a request"),
    }
}

fn inv(kind: &str, items: &[&str]) -> Invmsg {
    Invmsg {
        addr_from: "n:1".into(),
        kind: kind.into(),
        items: items.iter().map(|s| s.to_string()).collect(),
        chain: 1,
    }
}

#[test]
fn block_inventory_requests_the_first_and_keeps_the_rest() {
    let s = Server::new("3001", "");
    let next = s.handle_inv(&inv("block", &["h1", "h2", "h1", "h3"]), 1);
    assert_eq!(next.in_transit, Some(vec!["h2".to_string(), "h3".to_string()]));
    match &next.requests[0].message {
        Message::GetData(m) => assert_eq!((m.kind.as_str(), m.id.as_str()), ("block", "h1")),
        _ => panic!("expected getdata"),
    }
}

#[test]
fn tx_inventory_requests_unknown_transactions_only() {
    let mut s = Server::new("3001", "");
    let next = s.handle_inv(&inv("tx", &["t1"]), 1);
    assert_eq!(next.requests.len(), 1);
    assert!(next.in_transit.is_none());
    s.insert_mempool(tx("t1"));
    let next = s.handle_inv(&inv("tx", &["t1"]), 1);
    assert!(next.requests.is_empty());
    let next = s.handle_inv(&inv("other", &[]), 1);
    assert!(next.requests.is_empty());
    assert!(next.in_transit.is_none());
}

#[test]
fn get_blocks_answers_with_inventory() {
    let s = Server::new("3001", "");
    let msg = GetBlocksmsg { addr_from: "n:1".into(), chain: 2 };
    let out = s.handle_get_blocks(&msg, 1, vec!["h1".into(), "h0".into()]);
    match &out[0].message {
        Message::Inv(m) => {
            assert_eq!(m.kind, "block");
            assert_eq!(m.items, vec!["h1".to_string(), "h0".to_string()]);
        }
        _ => panic!("expected inv"),
    }
}

#[test]
fn get_data_for_block_and_transaction() {
    let mut s = Server::new("3001", "");
    s.insert_mempool(tx("t1"));
    let req = |kind: &str, id: &str| GetDatamsg { addr_from: "n:1".into(), kind: kind.into(), id: id.into(), chain: 2 };
    assert!(matches!(s.handle_get_data(&req("block", "h")), DataReply::FetchBlock));
    match s.handle_get_data(&req("tx", "t1")) {
        DataReply::Reply(out) => match &out[0].message {
            Message::Tx(m) => {
                assert_eq!(m.transaction.id, "t1");
                assert_eq!(m.chain, 2);
            }
            _ => panic!("expected tx"),
        },
        _ => panic!("expected reply"),
    }
    assert!(matches!(s.handle_get_data(&req("x", "t1")), DataReply::Nothing));
}

fn txmsg(from: &str, id: &str) -> Txmsg {
    Txmsg { addr_from: from.into(), transaction: tx(id), chain: 2 }
}

#[test]
fn central_node_forwards_transactions() {
    let mut s = Server::new("3000", "");
    s.add_nodes("a:1");
    s.add_nodes("b:2");
    match s.handle_tx(&txmsg("a:1", "t9")) {
        TxFollowUp::Forward(out) => {
            assert_eq!(targets(&out), vec!["b:2"]);
            match &out[0].message {
                Message::Inv(m) => {
                    assert_eq!(m.kind, "tx");
                    assert_eq!(m.items, vec!["t9".to_string()]);
                    assert_eq!(m.chain, 2);
                }
                _ => panic!("expected inv"),
            }
        }
        _ => panic!("expected forward"),
    }
    assert!(s.get_mempool_tx("t9").is_some());
}

#[test]
fn mining_node_mines_until_the_mempool_is_done() {
    let mut s = Server::new("3001", "miner");
    s.insert_mempool(tx("t1"));
    match s.handle_tx(&txmsg("a:1", "t2")) {
        TxFollowUp::Mine(mut session) => {
            assert_eq!(session.pending().len(), 2);
            let picked = session.select(&vec![false, true]).unwrap();
            assert_eq!(picked.len(), 1);
            assert_eq!(picked[0].id, "t2");
            let mut mined = picked;
            mined.push(tx("coinbase"));
            assert!(!session.record_mined(&mined));
            assert_eq!(session.pending().len(), 1);
            assert!(session.select(&vec![false]).is_none());
            let picked = session.select(&vec![true]).unwrap();
            assert!(session.record_mined(&picked));
        }
        _ => panic!("expected mining"),
    }
}

#[test]
fn non_mining_node_only_stores_transactions() {
    let mut s = Server::new("3001", "");
    assert!(matches!(s.handle_tx(&txmsg("a:1", "t1")), TxFollowUp::Nothing));
    assert_eq!(s.get_mempool().len(), 1);
}

#[test]
fn announce_and_request_reach_every_other_node() {
    let mut s = Server::new("3001", "");
    s.add_nodes("a:1");
    s.add_nodes("localhost:3001");
    assert_eq!(sorted(targets(&s.announce_block("hh", 1))), vec!["a:1", KNOWN_NODE1]);
    assert_eq!(sorted(targets(&s.request_blocks(2))), vec!["a:1", KNOWN_NODE1]);
}

#[test]
fn wallet_sends_transaction_to_central_node() {
    let out = Server::send_transaction(&tx("t5"), 2);
    assert_eq!(targets(&out), vec![KNOWN_NODE1]);
    match &out[0].message {
        Message::Tx(m) => {
            assert_eq!(m.addr_from, "localhost:7000");
            assert_eq!(m.transaction.id, "t5");
            assert_eq!(m.chain, 2);
        }
        _ => panic!("expected tx"),
    }
    let s = Server::new("3001", "");
    let out = s.send_tx("n:1", &tx("t6"), 1);
    assert_eq!(targets(&out), vec!["n:1"]);
}

#[test]
fn start_up_asks_for_blocks_or_announces_version() {
    let s = Server::new("3001", "m");
    assert_eq!(s.get_node_address(), "localhost:3001");
    assert_eq!(s.get_mining_address(), "m");
    let out = s.sync_on_start(2, -1);
    assert_eq!(targets(&out), vec![KNOWN_NODE1]);
    assert!(matches!(out[0].message, Message::GetBlock(_)));
    let out = s.sync_on_start(1, 5);
    match &out[0].message {
        Message::Version(m) => {
            assert_eq!(m.best_height, 5);
            assert_eq!(m.chain, 1);
        }
        _ => panic!("expected version"),
    }
}
