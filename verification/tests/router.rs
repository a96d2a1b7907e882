use ed25519_dalek::{Signer, SigningKey};
use funder::index_server::{CurrencyIndexMutation, IndexMutation, UpdateFriend};
use funder::proto::{
    create_pending_transaction, CancelSendFundsOp, CurrencyResetBalance, FriendMessage,
    McBalance, MoveTokenRequest, RequestSendFundsOp, ResetTermsMessage, ResponseSendFundsOp,
};
use funder::router::handle_config::{
    add_currency, close_currency, open_currency, set_local_max_debt, set_rate,
    set_remote_max_debt, set_remove_currency, unset_remove_currency,
};
use funder::router::handle_friend::handle_friend_message;
use funder::router::handle_liveness::{remove_friend, set_friend_offline, set_friend_online};
use funder::router::handle_route::ForwardDecision;
use funder::router::{
    calc_capacities, create_index_mutation, AppEvent, BackwardsOp, CurrencyConfig, FriendSend,
    RequestOrigin, RouterOutput, RouterState,
};
use funder::signature_buff::{create_response_signature_buffer, move_token_signature_buff};
use funder::token_channel::{ResetTerms, TcStatus};
use funder::types::{Currency, Rate, U256};
use std::collections::VecDeque;

struct Node {
    key: SigningKey,
    pk: [u8; 32],
    router: RouterState,
}

struct Net {
    nodes: Vec<Node>,
    /// What the applications were told, with the node that was told.
    events: Vec<(usize, AppEvent)>,
    /// What the indexes were told, with the node that told.
    index: Vec<(usize, CurrencyIndexMutation)>,
    /// How many messages went from node to node.
    delivered: usize,
    /// Whether a destination answers a request at once.
    respond: bool,
    /// A move token that is changed on its way, by sender and receiver.
    tamper: Option<(usize, usize)>,
}

const NONCE: [u8; 16] = [5u8; 16];

fn currency() -> Currency {
    Currency::from_bytes(b"FST").unwrap()
}

fn sign_with(key: &SigningKey) -> impl Fn(&Vec<u8>) -> [u8; 64] + '_ {
    move |buffer: &Vec<u8>| key.sign(buffer).to_bytes()
}

fn wire_terms(terms: &ResetTerms) -> ResetTermsMessage {
    let mut reset_balances = Vec::new();
    for k in 0..terms.reset_balances.len() {
        reset_balances.push(CurrencyResetBalance {
            currency: terms.reset_balances.key_at(k),
            reset_balance: *terms.reset_balances.value_at(k),
        });
    }
    ResetTermsMessage {
        reset_token: terms.reset_token,
        move_token_counter: terms.move_token_counter,
        reset_balances,
    }
}

impl Net {
    fn new(count: usize, max_operations_in_batch: usize) -> Net {
        let mut nodes = Vec::new();
        for i in 0..count {
            let key = SigningKey::from_bytes(&[i as u8 + 1; 32]);
            let pk = key.verifying_key().to_bytes();
            nodes.push(Node { router: RouterState::new(pk, max_operations_in_batch), key, pk });
        }
        Net { nodes, events: Vec::new(), index: Vec::new(), delivered: 0, respond: true, tamper: None }
    }

    fn pk(&self, i: usize) -> [u8; 32] {
        self.nodes[i].pk
    }

    fn node_of(&self, pk: &[u8; 32]) -> usize {
        self.nodes.iter().position(|node| node.pk == *pk).unwrap()
    }

    fn friend<'a>(&'a self, i: usize, j: usize) -> &'a funder::router::Friend {
        let k = self.nodes[i].router.find_friend(&self.nodes[j].pk).unwrap();
        &self.nodes[i].router.friends[k]
    }

    fn balance(&self, i: usize, j: usize) -> McBalance {
        self.friend(i, j).get_balance(&currency()).unwrap()
    }

    /// Carries out what a router asked for, and what follows from it, until
    /// the network is quiet.
    fn run(&mut self, from: usize, output: RouterOutput) {
        let mut queue = VecDeque::new();
        queue.push_back((from, output));
        while let Some((from, output)) = queue.pop_front() {
            for mutation in output.index_mutations {
                self.index.push((from, mutation));
            }
            for message in output.friends_messages {
                let to = self.node_of(&message.friend_public_key);
                let content = {
                    let friend = self.friend(from, to);
                    match message.send {
                        FriendSend::MoveToken(token_wanted) => {
                            let mut move_token =
                                friend.token_channel.outgoing_move_token().unwrap().clone();
                            if self.tamper == Some((from, to)) {
                                move_token.info_hash[0] ^= 1;
                                move_token.new_token = self.nodes[from]
                                    .key
                                    .sign(&move_token_signature_buff(&move_token))
                                    .to_bytes();
                            }
                            FriendMessage::MoveTokenRequest(MoveTokenRequest {
                                move_token,
                                token_wanted,
                            })
                        }
                        FriendSend::ResetTerms => FriendMessage::InconsistencyError(wire_terms(
                            friend.token_channel.local_reset_terms().unwrap(),
                        )),
                    }
                };
                if self.tamper == Some((from, to)) {
                    self.tamper = None;
                }
                self.delivered += 1;
                assert!(self.delivered < 10_000);
                let sender = self.nodes[from].pk;
                let node = &mut self.nodes[to];
                let reply = handle_friend_message(
                    &mut node.router,
                    sender,
                    content,
                    NONCE,
                    &sign_with(&node.key),
                );
                queue.push_back((to, reply));
            }
            for event in output.app_events {
                if let (true, AppEvent::Request(_, currency, request)) = (self.respond, &event) {
                    let reply = self.answer(from, *currency, request);
                    queue.push_back((from, reply));
                }
                self.events.push((from, event));
            }
        }
    }

    /// The destination signs a response and sends it back.
    fn answer(&mut self, at: usize, currency: Currency, request: &RequestSendFundsOp) -> RouterOutput {
        let row = create_pending_transaction(request.clone());
        let mut response = ResponseSendFundsOp {
            request_id: request.request_id,
            src_plain_lock: [4u8; 32],
            serial_num: 1,
            signature: [0u8; 64],
        };
        let buffer = create_response_signature_buffer(&currency, &response, &row);
        let node = &mut self.nodes[at];
        response.signature = node.key.sign(&buffer).to_bytes();
        let mut output = RouterOutput::new();
        assert!(node.router.send_backwards(BackwardsOp::Response(currency, response), &mut output));
        node.router.flush_all(NONCE, &sign_with(&node.key), &mut output);
        output
    }

    /// Configures the currency of friend `j` at node `i`.
    fn configure(&mut self, i: usize, j: usize, max_debt: u128, rate: Rate) {
        let friend = self.nodes[j].pk;
        let node = &mut self.nodes[i];
        assert!(node.router.add_friend(&friend));
        add_currency(&mut node.router, friend, currency());
        set_remote_max_debt(&mut node.router, friend, currency(), max_debt);
        set_local_max_debt(&mut node.router, friend, currency(), max_debt);
        set_rate(&mut node.router, friend, currency(), rate);
    }

    fn open(&mut self, i: usize, j: usize) {
        let friend = self.nodes[j].pk;
        let node = &mut self.nodes[i];
        let output = open_currency(&mut node.router, friend, currency(), NONCE, &sign_with(&node.key));
        self.run(i, output);
    }

    fn online(&mut self, i: usize, j: usize) {
        let friend = self.nodes[j].pk;
        let node = &mut self.nodes[i];
        let output = set_friend_online(&mut node.router, friend, NONCE, &sign_with(&node.key));
        self.run(i, output);
    }

    /// Makes two nodes friends that trade the currency and can reach each
    /// other. `rate_ij` is what `i` charges `j`.
    fn connect(&mut self, i: usize, j: usize, max_debt: u128, rate_ij: Rate, rate_ji: Rate) {
        self.configure(i, j, max_debt, rate_ij);
        self.configure(j, i, max_debt, rate_ji);
        self.open(i, j);
        self.open(j, i);
        self.online(i, j);
        self.online(j, i);
        assert_eq!(self.friend(i, j).token_channel.mutual_credits.len(), 1);
        assert_eq!(self.friend(j, i).token_channel.mutual_credits.len(), 1);
    }

    /// The application at `from` sends a request along a route of nodes.
    fn pay(&mut self, id: u8, route: &[usize], dest_payment: u128, left_fees: u128) -> bool {
        let from = route[0];
        let request = RequestSendFundsOp {
            request_id: [id; 16],
            src_hashed_lock: [1u8; 32],
            route_remainder: route[1..].iter().map(|i| self.nodes[*i].pk).collect(),
            dest_payment,
            total_dest_payment: dest_payment,
            invoice_hash: [2u8; 32],
            hmac: [3u8; 32],
            left_fees,
        };
        let node = &mut self.nodes[from];
        let mut output = RouterOutput::new();
        let queued = node.router.send_request(currency(), request, &mut output);
        node.router.flush_all(NONCE, &sign_with(&node.key), &mut output);
        self.run(from, output);
        queued
    }

    fn responses_at(&self, i: usize) -> Vec<[u8; 16]> {
        self.events
            .iter()
            .filter_map(|(at, event)| match event {
                AppEvent::Response(_, response) if *at == i => Some(response.request_id),
                _ => None,
            })
            .collect()
    }

    fn cancels_at(&self, i: usize) -> Vec<CancelSendFundsOp> {
        self.events
            .iter()
            .filter_map(|(at, event)| match event {
                AppEvent::Cancel(_, cancel) if *at == i => Some(*cancel),
                _ => None,
            })
            .collect()
    }

    fn assert_quiet(&self) {
        for node in &self.nodes {
            for friend in &node.router.friends {
                assert!(friend.pending_backwards_ops.is_empty());
                assert!(friend.pending_requests.is_empty());
                assert!(friend.pending_user_requests.is_empty());
                for k in 0..friend.token_channel.mutual_credits.len() {
                    let mc = friend.token_channel.mutual_credits.value_at(k);
                    assert!(mc.pending_transactions.local.is_empty());
                    assert!(mc.pending_transactions.remote.is_empty());
                    assert_eq!(mc.balance.local_pending_debt, 0);
                    assert_eq!(mc.balance.remote_pending_debt, 0);
                }
            }
        }
    }
}

const FREE: Rate = Rate { mul: 0, add: 0 };

#[test]
fn two_nodes_single_currency_payment() {
    let mut net = Net::new(2, 16);
    net.connect(0, 1, 100, FREE, FREE);
    assert!(net.pay(7, &[0, 1], 10, 0));
    assert_eq!(net.responses_at(0), vec![[7u8; 16]]);
    assert_eq!(net.balance(0, 1).balance, -10);
    assert_eq!(net.balance(1, 0).balance, 10);
    assert!(net.nodes[0].router.local_requests.is_empty());
    net.assert_quiet();
    // the destination saw the request, coming from node 0
    assert!(net.events.iter().any(|(at, event)| *at == 1
        && matches!(event, AppEvent::Request(from, _, request)
            if *from == net.pk(0) && request.dest_payment == 10)));
}

#[test]
fn three_hops_with_fees() {
    let mut net = Net::new(5, 16);
    let one = Rate { mul: 0, add: 1 };
    net.connect(1, 0, 100, one, FREE);
    net.connect(2, 1, 100, one, FREE);
    net.connect(4, 2, 100, FREE, FREE);
    assert!(net.pay(2, &[0, 1, 2, 4], 10, 2));
    assert_eq!(net.responses_at(0), vec![[2u8; 16]]);
    assert_eq!(net.balance(0, 1).balance, -12);
    assert_eq!(net.balance(1, 0).balance, 12);
    assert_eq!(net.balance(1, 2).balance, -11);
    assert_eq!(net.balance(2, 1).balance, 11);
    assert_eq!(net.balance(2, 4).balance, -10);
    assert_eq!(net.balance(4, 2).balance, 10);
    // each forwarding node kept one credit of the two that the payer gave
    assert_eq!(net.balance(1, 2).out_fees, U256 { hi: 0, lo: 1 });
    assert_eq!(net.balance(2, 4).out_fees, U256 { hi: 0, lo: 1 });
    // the payer and the destination kept nothing
    assert_eq!(net.balance(0, 1).out_fees, U256 { hi: 0, lo: 0 });
    assert_eq!(net.balance(4, 2).out_fees, U256 { hi: 0, lo: 0 });
    assert_eq!(net.balance(1, 0).out_fees, U256 { hi: 0, lo: 0 });
    assert_eq!(net.balance(2, 1).out_fees, U256 { hi: 0, lo: 0 });
    // a second payment adds to the counters
    assert!(net.pay(3, &[0, 1, 2, 4], 5, 4));
    assert_eq!(net.balance(0, 1).balance, -12 - 9);
    assert_eq!(net.balance(1, 2).out_fees, U256 { hi: 0, lo: 2 });
    assert_eq!(net.balance(2, 4).out_fees, U256 { hi: 0, lo: 2 });
    net.assert_quiet();
}

#[test]
fn test_nodes_chain() {
    let mut net = Net::new(6, 16);
    let add = |add: u32| Rate { mul: 0, add };
    net.connect(0, 1, 100, FREE, add(1));
    net.connect(1, 2, 100, add(2), add(1));
    net.connect(1, 3, 100, FREE, FREE);
    net.connect(2, 5, 100, Rate { mul: 0x8000_0000, add: 0 }, FREE);
    net.connect(2, 4, 100, FREE, add(1));
    assert!(net.friend(1, 2).is_online);

    // Perform a payment through the chain: 0 -> 1 -> 2 -> 4
    let total_dest_payment = 10u128;
    let fees = 2u128; // Fees for Node1 and Node2
    assert!(net.pay(2, &[0, 1, 2, 4], total_dest_payment, fees));
    assert_eq!(net.responses_at(0), vec![[2u8; 16]]);
    assert!(net.cancels_at(0).is_empty());
    assert_eq!(net.balance(4, 2).balance, 10);
    assert_eq!(net.balance(0, 1).balance, -12);

    // Perform a payment through the chain: 5 -> 2 -> 1 -> 3
    let fees = 5u128 + 2u128; // Fees for Node2 (5 = 10/2) and Node1 (2).
    assert!(net.pay(5, &[5, 2, 1, 3], total_dest_payment, fees));
    assert_eq!(net.responses_at(5), vec![[5u8; 16]]);
    assert_eq!(net.balance(5, 2).balance, -17);
    assert_eq!(net.balance(2, 1).balance, 11 - 12);
    assert_eq!(net.balance(1, 2).balance, -11 + 12);
    assert_eq!(net.balance(3, 1).balance, 10);
    net.assert_quiet();

    // one credit too few in fees, and the payment does not get through
    assert!(net.pay(6, &[5, 2, 1, 3], total_dest_payment, 6));
    let cancels = net.cancels_at(5);
    assert_eq!(cancels.len(), 1);
    assert_eq!(cancels[0].request_id, [6u8; 16]);
    assert_eq!(cancels[0].reporting_public_key, net.pk(1));
    assert_eq!(net.balance(5, 2).balance, -17);
    net.assert_quiet();
}

#[test]
fn insufficient_capacity_mid_route() {
    let mut net = Net::new(5, 16);
    let one = Rate { mul: 0, add: 1 };
    net.connect(1, 0, 100, one, FREE);
    net.connect(2, 1, 100, one, FREE);
    net.connect(4, 2, 100, FREE, FREE);
    // node 1 lets node 2 owe it no more than 5
    let friend = net.pk(2);
    set_remote_max_debt(&mut net.nodes[1].router, friend, currency(), 5);
    assert!(net.pay(2, &[0, 1, 2, 4], 10, 2));
    assert!(net.responses_at(0).is_empty());
    assert_eq!(
        net.cancels_at(0),
        vec![CancelSendFundsOp { request_id: [2u8; 16], reporting_public_key: net.pk(1) }]
    );
    for (i, j) in [(0, 1), (1, 0), (1, 2), (2, 1), (2, 4), (4, 2)] {
        assert_eq!(net.balance(i, j).balance, 0);
    }
    assert!(net.nodes[0].router.local_requests.is_empty());
    net.assert_quiet();
}

#[test]
fn request_that_cannot_start() {
    let mut net = Net::new(3, 16);
    net.connect(0, 1, 100, FREE, FREE);
    // node 2 is no friend of node 0
    assert!(!net.pay(1, &[0, 2], 10, 0));
    // more than node 0 lets itself owe
    assert!(!net.pay(2, &[0, 1], 101, 0));
    // an empty route
    assert!(!net.pay(3, &[0], 10, 0));
    let cancels = net.cancels_at(0);
    assert_eq!(cancels.len(), 3);
    assert!(cancels.iter().all(|cancel| cancel.reporting_public_key == net.pk(0)));
    assert!(net.nodes[0].router.local_requests.is_empty());
    // an id that is in use
    net.respond = false;
    assert!(net.pay(4, &[0, 1], 10, 0));
    assert!(!net.pay(4, &[0, 1], 10, 0));
    assert_eq!(net.nodes[0].router.local_requests, vec![[4u8; 16]]);
}

#[test]
fn destination_can_cancel() {
    let mut net = Net::new(3, 16);
    net.connect(1, 0, 100, Rate { mul: 0, add: 1 }, FREE);
    net.connect(2, 1, 100, FREE, FREE);
    net.respond = false;
    assert!(net.pay(9, &[0, 1, 2], 10, 1));
    assert_eq!(net.balance(0, 1).local_pending_debt, 11);
    assert_eq!(net.balance(1, 2).local_pending_debt, 10);
    assert_eq!(
        net.nodes[1].router.find_request_origin(&currency(), &[9u8; 16]),
        RequestOrigin::Friend(net.nodes[1].router.find_friend(&net.pk(0)).unwrap())
    );
    assert_eq!(net.nodes[0].router.find_request_origin(&currency(), &[9u8; 16]), RequestOrigin::Local);
    assert_eq!(net.nodes[0].router.find_request_origin(&currency(), &[8u8; 16]), RequestOrigin::Unknown);

    let cancel = CancelSendFundsOp { request_id: [9u8; 16], reporting_public_key: net.pk(2) };
    let node = &mut net.nodes[2];
    let mut output = RouterOutput::new();
    assert!(node.router.send_backwards(BackwardsOp::Cancel(currency(), cancel), &mut output));
    assert!(!node.router.send_backwards(
        BackwardsOp::Cancel(currency(), CancelSendFundsOp { request_id: [8u8; 16], ..cancel }),
        &mut output
    ));
    node.router.flush_all(NONCE, &sign_with(&node.key), &mut output);
    net.run(2, output);
    assert_eq!(net.cancels_at(0), vec![cancel]);
    assert_eq!(net.balance(0, 1).balance, 0);
    assert_eq!(net.balance(2, 1).balance, 0);
    net.assert_quiet();
}

#[test]
fn ephemeral_state_counts_what_is_frozen() {
    let mut net = Net::new(3, 16);
    net.connect(1, 0, 100, Rate { mul: 0, add: 1 }, FREE);
    net.connect(2, 1, 100, FREE, FREE);
    net.respond = false;
    assert!(net.pay(1, &[0, 1, 2], 10, 1));
    assert!(net.pay(2, &[0, 1, 2], 5, 1));
    let at = |i: usize| funder::ephemeral::Ephemeral::new(&net.nodes[i].router);
    assert_eq!(at(0).freeze_guard.get_frozen(&net.pk(1)), 17);
    assert_eq!(at(1).freeze_guard.get_frozen(&net.pk(2)), 15);
    assert_eq!(at(1).freeze_guard.get_frozen(&net.pk(0)), 0);
    assert_eq!(at(2).freeze_guard.get_frozen(&net.pk(1)), 0);
    assert_eq!(at(0).freeze_guard.get_frozen(&net.pk(2)), 0);
    assert!(at(0).liveness.friends.is_empty());
}

#[test]
fn move_token_carries_at_most_one_batch() {
    let mut net = Net::new(2, 2);
    net.connect(0, 1, 100, FREE, FREE);
    net.respond = false;
    // queue five requests while node 0 cannot send
    let friend = net.pk(1);
    set_friend_offline(&mut net.nodes[0].router, friend);
    // a friend that cannot be reached takes no requests
    assert!(!net.pay(1, &[0, 1], 1, 0));
    net.online(0, 1);
    let node = &mut net.nodes[0];
    let mut output = RouterOutput::new();
    for id in 1..=5u8 {
        let request = RequestSendFundsOp {
            request_id: [id; 16],
            src_hashed_lock: [1u8; 32],
            route_remainder: vec![friend],
            dest_payment: 1,
            total_dest_payment: 1,
            invoice_hash: [2u8; 32],
            hmac: [3u8; 32],
            left_fees: 0,
        };
        assert!(node.router.send_request(currency(), request, &mut output));
    }
    assert_eq!(node.router.friends[0].pending_user_requests.len(), 5);
    if !node.router.friends[0].token_channel.holds_token() {
        // ask for the token, and get it
        node.router.flush_all(NONCE, &sign_with(&node.key), &mut output);
        assert_eq!(output.friends_messages.len(), 1);
        assert_eq!(output.friends_messages[0].send, FriendSend::MoveToken(true));
    } else {
        node.router.flush_all(NONCE, &sign_with(&node.key), &mut output);
    }
    net.run(0, output);
    // all five arrived, two in a move token
    assert_eq!(net.balance(1, 0).remote_pending_debt, 5);
    let requests: Vec<u8> = net
        .events
        .iter()
        .filter_map(|(_, event)| match event {
            AppEvent::Request(_, _, request) => Some(request.request_id[0]),
            _ => None,
        })
        .collect();
    assert_eq!(requests, vec![1, 2, 3, 4, 5]);
    match &net.friend(0, 1).token_channel.status {
        TcStatus::ConsistentOut(move_token, _) => {
            assert_eq!(move_token.operations.len(), 1);
            assert_eq!(move_token.operations[0].operations.len(), 1);
        }
        TcStatus::ConsistentIn(_) => {}
        _ => unreachable!(),
    }
}

#[test]
fn close_currency_cancels_what_waits() {
    let mut net = Net::new(3, 16);
    net.connect(1, 0, 100, FREE, FREE);
    net.connect(1, 2, 100, FREE, FREE);
    net.respond = false;
    // a request of the application waits at node 1 for node 2, which cannot
    // be reached by messages for now
    let friend = net.pk(2);
    let node = &mut net.nodes[1];
    let mut output = RouterOutput::new();
    let request = RequestSendFundsOp {
        request_id: [7u8; 16],
        src_hashed_lock: [1u8; 32],
        route_remainder: vec![friend],
        dest_payment: 10,
        total_dest_payment: 10,
        invoice_hash: [2u8; 32],
        hmac: [3u8; 32],
        left_fees: 0,
    };
    assert!(node.router.send_request(currency(), request, &mut output));
    let k = node.router.find_friend(&friend).unwrap();
    assert_eq!(node.router.friends[k].pending_user_requests.len(), 1);

    let output = close_currency(&mut node.router, friend, currency(), NONCE, &sign_with(&node.key));
    assert_eq!(
        output.app_events,
        vec![AppEvent::Cancel(
            currency(),
            CancelSendFundsOp { request_id: [7u8; 16], reporting_public_key: node.pk }
        )]
    );
    assert_eq!(
        output.index_mutations,
        vec![CurrencyIndexMutation {
            currency: currency(),
            index_mutation: IndexMutation::RemoveFriend(friend)
        }]
    );
    assert!(node.router.friends[k].pending_user_requests.is_empty());
    assert!(node.router.local_requests.is_empty());
    assert_eq!(node.router.get_config(k, &currency()).unwrap().is_open, false);
    net.run(1, output);
    // the move token that took the currency out has gone, or goes as soon as
    // node 1 has the token
    assert!(!net.friend(1, 2).token_channel.local_currencies.has(&currency()));
    assert!(!net.friend(2, 1).token_channel.remote_currencies.has(&currency()));
    assert!(net.friend(2, 1).token_channel.local_currencies.has(&currency()));
    // closing again does nothing
    let node = &mut net.nodes[1];
    let before = node.router.clone();
    let output = close_currency(&mut node.router, friend, currency(), NONCE, &sign_with(&node.key));
    assert_eq!(output, RouterOutput::new());
    assert_eq!(node.router, before);
    // requests do not pass any more
    assert!(!net.pay(8, &[0, 1, 2], 10, 0) || net.cancels_at(0).len() == 1);
    assert_eq!(net.cancels_at(0).len(), 1);
    assert_eq!(net.cancels_at(0)[0].reporting_public_key, net.pk(1));
}

#[test]
fn capacities() {
    let balance = |balance: i128, local_pending_debt: u128, remote_pending_debt: u128| McBalance {
        balance,
        local_pending_debt,
        remote_pending_debt,
        in_fees: U256 { hi: 0, lo: 0 },
        out_fees: U256 { hi: 0, lo: 0 },
    };
    // (send, receive) for local_max_debt 50 and remote_max_debt 100
    assert_eq!(calc_capacities(&balance(0, 0, 0), 50, 100), (100, 50));
    // 100 - (10 + 20), 50 + 10 - 5
    assert_eq!(calc_capacities(&balance(10, 20, 5), 50, 100), (70, 55));
    // 100 - (-10 + 20), 50 - 10 - 5
    assert_eq!(calc_capacities(&balance(-10, 20, 5), 50, 100), (90, 35));
    assert_eq!(calc_capacities(&balance(95, 20, 5), 50, 100), (0, 140));
    assert_eq!(calc_capacities(&balance(-60, 0, 0), 50, 100), (160, 0));
    assert_eq!(calc_capacities(&balance(0, 100, 50), 50, 100), (0, 0));
    assert_eq!(calc_capacities(&balance(0, 99, 49), 50, 100), (1, 1));
    assert_eq!(calc_capacities(&balance(i128::MIN, 0, 0), 0, u128::MAX), (u128::MAX, 0));
    assert_eq!(calc_capacities(&balance(i128::MAX, 0, 0), u128::MAX, 0), (0, u128::MAX));
    assert_eq!(calc_capacities(&balance(i128::MAX, u128::MAX, u128::MAX), 5, 5), (0, 0));
    assert_eq!(calc_capacities(&balance(1, 0, 0), u128::MAX, u128::MAX), (u128::MAX - 1, u128::MAX));

    let config = CurrencyConfig { rate: Rate { mul: 1, add: 2 }, is_open: true, remove: false };
    assert_eq!(
        create_index_mutation(&[1u8; 32], &config, Some(balance(10, 20, 5)), 50, 100),
        IndexMutation::UpdateFriend(UpdateFriend {
            public_key: [1u8; 32],
            send_capacity: 70,
            recv_capacity: 55,
            rate: Rate { mul: 1, add: 2 },
        })
    );
    assert_eq!(
        create_index_mutation(&[1u8; 32], &config, None, 50, 100),
        IndexMutation::RemoveFriend([1u8; 32])
    );
    let closed = CurrencyConfig { is_open: false, ..config };
    assert_eq!(
        create_index_mutation(&[1u8; 32], &closed, Some(balance(10, 20, 5)), 50, 100),
        IndexMutation::RemoveFriend([1u8; 32])
    );
}

#[test]
fn configuration_of_a_currency() {
    let mut net = Net::new(2, 16);
    let friend = net.pk(1);
    let stranger = [9u8; 32];
    let node = &mut net.nodes[0];
    let local = node.pk;
    assert!(node.router.add_friend(&friend));
    assert!(!node.router.add_friend(&friend));
    assert!(!node.router.add_friend(&local));
    assert_eq!(node.router.friends.len(), 1);
    let fresh = node.router.clone();

    // nothing is configured for a stranger, or before the currency is added
    assert_eq!(add_currency(&mut node.router, stranger, currency()), RouterOutput::new());
    assert_eq!(set_remote_max_debt(&mut node.router, friend, currency(), 10), RouterOutput::new());
    assert_eq!(set_local_max_debt(&mut node.router, friend, currency(), 10), RouterOutput::new());
    assert_eq!(set_rate(&mut node.router, friend, currency(), FREE), RouterOutput::new());
    assert_eq!(
        open_currency(&mut node.router, friend, currency(), NONCE, &sign_with(&node.key)),
        RouterOutput::new()
    );
    assert_eq!(
        set_remove_currency(&mut node.router, friend, currency(), NONCE, &sign_with(&node.key)),
        RouterOutput::new()
    );
    assert_eq!(node.router, fresh);

    assert_eq!(add_currency(&mut node.router, friend, currency()), RouterOutput::new());
    assert_eq!(
        node.router.get_config(0, &currency()),
        Some(CurrencyConfig { rate: FREE, is_open: false, remove: false })
    );
    // adding it again changes nothing
    let added = node.router.clone();
    add_currency(&mut node.router, friend, currency());
    assert_eq!(node.router, added);

    // closed: nothing is said to the index
    assert_eq!(set_remote_max_debt(&mut node.router, friend, currency(), 100), RouterOutput::new());
    assert_eq!(set_local_max_debt(&mut node.router, friend, currency(), 50), RouterOutput::new());
    assert_eq!(node.router.friends[0].token_channel.remote_max_debts.get_or(&currency(), 0), 100);
    assert_eq!(node.router.friends[0].token_channel.local_max_debts.get_or(&currency(), 0), 50);
    // debts above the largest are not taken
    set_remote_max_debt(&mut node.router, friend, currency(), 1u128 << 127);
    set_local_max_debt(&mut node.router, friend, currency(), 1u128 << 127);
    assert_eq!(node.router.friends[0].token_channel.remote_max_debts.get_or(&currency(), 0), 100);
    assert_eq!(node.router.friends[0].token_channel.local_max_debts.get_or(&currency(), 0), 50);

    let rate = Rate { mul: 3, add: 4 };
    set_rate(&mut node.router, friend, currency(), rate);
    set_remove_currency(&mut node.router, friend, currency(), NONCE, &sign_with(&node.key));
    assert!(node.router.get_config(0, &currency()).unwrap().remove);
    unset_remove_currency(&mut node.router, friend, currency(), NONCE, &sign_with(&node.key));
    assert_eq!(
        node.router.get_config(0, &currency()),
        Some(CurrencyConfig { rate, is_open: false, remove: false })
    );

    // opened while the friend cannot be reached: there is no capacity to tell
    let output = open_currency(&mut node.router, friend, currency(), NONCE, &sign_with(&node.key));
    assert_eq!(output, RouterOutput::new());
    assert!(node.router.get_config(0, &currency()).unwrap().is_open);
    // open: the index hears of every change
    let output = set_local_max_debt(&mut node.router, friend, currency(), 60);
    assert_eq!(
        output.index_mutations,
        vec![CurrencyIndexMutation {
            currency: currency(),
            index_mutation: IndexMutation::RemoveFriend(friend)
        }]
    );
}

#[test]
fn index_hears_of_capacities() {
    let mut net = Net::new(2, 16);
    net.connect(0, 1, 100, Rate { mul: 0, add: 1 }, FREE);
    net.index.clear();
    let friend = net.pk(1);
    let output = set_remote_max_debt(&mut net.nodes[0].router, friend, currency(), 80);
    assert_eq!(
        output.index_mutations,
        vec![CurrencyIndexMutation {
            currency: currency(),
            index_mutation: IndexMutation::UpdateFriend(UpdateFriend {
                public_key: friend,
                send_capacity: 80,
                recv_capacity: 100,
                rate: Rate { mul: 0, add: 1 },
            })
        }]
    );
    assert!(net.pay(7, &[0, 1], 10, 0));
    // node 1 told the index after it got the request, node 0 after it got the
    // response
    let last_of = |net: &Net, i: usize| {
        net.index.iter().rev().find(|(at, _)| *at == i).map(|(_, mutation)| mutation.index_mutation)
    };
    assert_eq!(
        last_of(&net, 0),
        Some(IndexMutation::UpdateFriend(UpdateFriend {
            public_key: friend,
            send_capacity: 90,
            recv_capacity: 90,
            rate: Rate { mul: 0, add: 1 },
        }))
    );
    // going out of reach takes the friend off the index
    let output = set_friend_offline(&mut net.nodes[0].router, friend);
    assert_eq!(
        output.index_mutations,
        vec![CurrencyIndexMutation {
            currency: currency(),
            index_mutation: IndexMutation::RemoveFriend(friend)
        }]
    );
    assert_eq!(set_friend_offline(&mut net.nodes[0].router, friend), RouterOutput::new());
}

#[test]
fn limit_below_what_is_owed_is_refused() {
    let mut net = Net::new(2, 16);
    net.connect(0, 1, 100, FREE, FREE);
    assert!(net.pay(7, &[0, 1], 10, 0));
    assert_eq!(net.balance(0, 1).balance, -10);
    assert_eq!(net.balance(1, 0).balance, 10);
    // node 0 owes 10: it cannot set its own limit under that
    let friend = net.pk(1);
    let before = net.nodes[0].router.clone();
    assert_eq!(set_local_max_debt(&mut net.nodes[0].router, friend, currency(), 9), RouterOutput::new());
    assert_eq!(net.nodes[0].router, before);
    let output = set_local_max_debt(&mut net.nodes[0].router, friend, currency(), 10);
    assert_eq!(
        output.index_mutations,
        vec![CurrencyIndexMutation {
            currency: currency(),
            index_mutation: IndexMutation::UpdateFriend(UpdateFriend {
                public_key: friend,
                send_capacity: 110,
                recv_capacity: 0,
                rate: FREE,
            })
        }]
    );
    assert_eq!(net.nodes[0].router.friends[0].token_channel.local_max_debts.get_or(&currency(), 0), 10);
    // node 1 is owed 10: it cannot set the other side's limit under that
    let friend = net.pk(0);
    let before = net.nodes[1].router.clone();
    assert_eq!(set_remote_max_debt(&mut net.nodes[1].router, friend, currency(), 9), RouterOutput::new());
    assert_eq!(net.nodes[1].router, before);
    let output = set_remote_max_debt(&mut net.nodes[1].router, friend, currency(), 10);
    assert_eq!(output.index_mutations.len(), 1);
    assert_eq!(net.nodes[1].router.friends[0].token_channel.remote_max_debts.get_or(&currency(), 0), 10);
    // the bound holds on both sides
    for (i, j) in [(0, 1), (1, 0)] {
        let balance = net.balance(i, j);
        let channel = &net.nodes[i].router.friends[0].token_channel;
        let local_max_debt = channel.local_max_debts.get_or(&currency(), 0) as i128;
        let remote_max_debt = channel.remote_max_debts.get_or(&currency(), 0) as i128;
        assert!(balance.balance + balance.local_pending_debt as i128 <= remote_max_debt);
        assert!(-balance.balance + balance.remote_pending_debt as i128 <= local_max_debt);
    }
}

#[test]
fn friend_out_of_reach() {
    let mut net = Net::new(3, 16);
    net.connect(1, 0, 100, FREE, FREE);
    net.connect(1, 2, 100, FREE, FREE);
    // node 2 goes out of reach of node 1 while a request for it waits
    net.respond = false;
    let (from, to) = (net.pk(0), net.pk(2));
    let node = &mut net.nodes[1];
    let k0 = node.router.find_friend(&from).unwrap();
    let k2 = node.router.find_friend(&to).unwrap();
    let request = RequestSendFundsOp {
        request_id: [7u8; 16],
        src_hashed_lock: [1u8; 32],
        route_remainder: vec![node.pk, to],
        dest_payment: 10,
        total_dest_payment: 10,
        invoice_hash: [2u8; 32],
        hmac: [3u8; 32],
        left_fees: 0,
    };
    assert_eq!(
        node.router.forward_decision(k0, &currency(), &request),
        ForwardDecision::Forward(k2)
    );
    let mut output = RouterOutput::new();
    node.router.handle_incoming_request(k0, currency(), request.clone(), &mut output);
    assert_eq!(node.router.friends[k2].pending_requests.len(), 1);
    assert_eq!(node.router.friends[k2].pending_requests[0].request.route_remainder, vec![to]);
    let output = set_friend_offline(&mut node.router, to);
    assert!(node.router.friends[k2].pending_requests.is_empty());
    assert!(!node.router.friends[k2].is_online);
    assert!(output.friends_messages.is_empty());
    // the request was not pending over the channel with node 0, so that the
    // cancel has nowhere to go
    assert!(node.router.friends[k0].pending_backwards_ops.is_empty());
    assert_eq!(node.router.forward_decision(k0, &currency(), &request), ForwardDecision::Cancel);
    let mut short = request.clone();
    short.route_remainder = vec![node.pk];
    assert_eq!(node.router.forward_decision(k0, &currency(), &short), ForwardDecision::Deliver);
    short.route_remainder = vec![node.pk, [9u8; 32]];
    assert_eq!(node.router.forward_decision(k0, &currency(), &short), ForwardDecision::Cancel);

    // a payment through node 1 is cancelled there
    net.respond = true;
    assert!(net.pay(8, &[0, 1, 2], 10, 0));
    assert_eq!(
        net.cancels_at(0),
        vec![CancelSendFundsOp { request_id: [8u8; 16], reporting_public_key: net.pk(1) }]
    );
    net.online(1, 2);
    assert!(net.pay(9, &[0, 1, 2], 10, 0));
    assert_eq!(net.responses_at(0), vec![[9u8; 16]]);
}

#[test]
fn queue_of_forwarded_requests_has_a_ceiling() {
    let mut net = Net::new(3, 1);
    net.connect(1, 0, 1000, FREE, FREE);
    net.connect(1, 2, 1000, FREE, FREE);
    let (from, to) = (net.pk(0), net.pk(2));
    let node = &mut net.nodes[1];
    let k0 = node.router.find_friend(&from).unwrap();
    let k2 = node.router.find_friend(&to).unwrap();
    let request = |id: u8| RequestSendFundsOp {
        request_id: [id; 16],
        src_hashed_lock: [1u8; 32],
        route_remainder: vec![node.pk, to],
        dest_payment: 1,
        total_dest_payment: 1,
        invoice_hash: [2u8; 32],
        hmac: [3u8; 32],
        left_fees: 0,
    };
    let mut output = RouterOutput::new();
    for id in 0..16u8 {
        let request = request(id);
        assert_eq!(
            node.router.forward_decision(k0, &currency(), &request),
            ForwardDecision::Forward(k2)
        );
        node.router.handle_incoming_request(k0, currency(), request, &mut output);
    }
    assert_eq!(node.router.friends[k2].pending_requests.len(), 16);
    let one_more = request(16);
    assert_eq!(node.router.forward_decision(k0, &currency(), &one_more), ForwardDecision::Cancel);
    node.router.handle_incoming_request(k0, currency(), one_more, &mut output);
    assert_eq!(node.router.friends[k2].pending_requests.len(), 16);
    assert_eq!(
        node.router.friends[k0].pending_backwards_ops,
        vec![BackwardsOp::Cancel(
            currency(),
            CancelSendFundsOp { request_id: [16u8; 16], reporting_public_key: node.pk }
        )]
    );
    assert_eq!(output, RouterOutput::new());
}

#[test]
fn request_known_from_elsewhere_is_dropped() {
    let mut net = Net::new(4, 16);
    net.connect(1, 0, 100, FREE, FREE);
    net.connect(1, 2, 100, FREE, FREE);
    net.connect(1, 3, 100, FREE, FREE);
    net.respond = false;
    // request 7 reaches node 2 by way of node 1, and stays pending
    assert!(net.pay(7, &[0, 1, 2], 10, 0));
    // the same id arrives at node 1 from node 3
    let (from, to) = (net.pk(3), net.pk(2));
    let node = &mut net.nodes[1];
    let k3 = node.router.find_friend(&from).unwrap();
    let again = RequestSendFundsOp {
        request_id: [7u8; 16],
        src_hashed_lock: [1u8; 32],
        route_remainder: vec![node.pk, to],
        dest_payment: 10,
        total_dest_payment: 10,
        invoice_hash: [2u8; 32],
        hmac: [3u8; 32],
        left_fees: 0,
    };
    assert_eq!(node.router.forward_decision(k3, &currency(), &again), ForwardDecision::Drop);
    let before = node.router.clone();
    let mut output = RouterOutput::new();
    node.router.handle_incoming_request(k3, currency(), again, &mut output);
    assert_eq!(node.router, before);
    assert_eq!(output, RouterOutput::new());
}

#[test]
fn removing_a_friend_cancels_what_hung_on_it() {
    let mut net = Net::new(3, 16);
    net.connect(1, 0, 100, FREE, FREE);
    net.connect(1, 2, 100, FREE, FREE);
    net.respond = false;
    // request 7 is pending at node 2, by way of node 1
    assert!(net.pay(7, &[0, 1, 2], 10, 0));
    assert_eq!(net.balance(1, 2).local_pending_debt, 10);
    let gone = net.pk(2);
    let node = &mut net.nodes[1];
    let mut output = remove_friend(&mut node.router, gone);
    assert_eq!(node.router.friends.len(), 1);
    assert!(node.router.find_friend(&gone).is_none());
    assert!(output.friends_messages.is_empty());
    assert_eq!(
        output.index_mutations,
        vec![CurrencyIndexMutation {
            currency: currency(),
            index_mutation: IndexMutation::RemoveFriend(gone)
        }]
    );
    node.router.flush_all(NONCE, &sign_with(&node.key), &mut output);
    net.run(1, output);
    assert_eq!(
        net.cancels_at(0),
        vec![CancelSendFundsOp { request_id: [7u8; 16], reporting_public_key: net.pk(1) }]
    );
    assert_eq!(net.balance(0, 1).local_pending_debt, 0);
    // removing once more, or removing a stranger, does nothing
    let node = &mut net.nodes[1];
    let before = node.router.clone();
    assert_eq!(remove_friend(&mut node.router, gone), RouterOutput::new());
    assert_eq!(node.router, before);
}

#[test]
fn messages_from_strangers_change_nothing() {
    let mut net = Net::new(2, 16);
    net.connect(0, 1, 100, FREE, FREE);
    let node = &mut net.nodes[0];
    let before = node.router.clone();
    let output = handle_friend_message(
        &mut node.router,
        [9u8; 32],
        FriendMessage::RelaysUpdate(Vec::new()),
        NONCE,
        &sign_with(&node.key),
    );
    assert_eq!(output, RouterOutput::new());
    assert_eq!(node.router, before);
    let friend = net.pk(1);
    let node = &mut net.nodes[0];
    let output = handle_friend_message(
        &mut node.router,
        friend,
        FriendMessage::RelaysUpdate(Vec::new()),
        NONCE,
        &sign_with(&node.key),
    );
    assert_eq!(output.app_events, vec![AppEvent::RelaysUpdate(friend, Vec::new())]);
    assert_eq!(set_friend_online(&mut node.router, [9u8; 32], NONCE, &sign_with(&node.key)), RouterOutput::new());
    assert_eq!(set_friend_online(&mut node.router, friend, NONCE, &sign_with(&node.key)), RouterOutput::new());
}

#[test]
fn duplicate_delivery_is_ignored() {
    let mut net = Net::new(2, 16);
    net.connect(0, 1, 100, FREE, FREE);
    net.respond = false;
    assert!(net.pay(7, &[0, 1], 10, 0));
    // the move token that carried the request arrives once more
    let (sender, receiver) = if net.friend(0, 1).token_channel.outgoing_move_token().is_some() {
        (0, 1)
    } else {
        (1, 0)
    };
    let move_token = net.friend(sender, receiver).token_channel.outgoing_move_token().unwrap().clone();
    let from = net.pk(sender);
    let node = &mut net.nodes[receiver];
    let before = node.router.clone();
    let output = handle_friend_message(
        &mut node.router,
        from,
        FriendMessage::MoveTokenRequest(MoveTokenRequest { move_token, token_wanted: false }),
        NONCE,
        &sign_with(&node.key),
    );
    assert_eq!(output, RouterOutput::new());
    assert_eq!(node.router, before);
}

#[test]
fn router_recovers_from_inconsistency() {
    let mut net = Net::new(3, 16);
    net.connect(1, 0, 100, FREE, FREE);
    net.connect(1, 2, 100, FREE, FREE);
    // a request from node 0 is pending at node 2, by way of node 1
    net.respond = false;
    assert!(net.pay(7, &[0, 1, 2], 10, 0));
    assert_eq!(net.balance(2, 1).remote_pending_debt, 10);
    assert_eq!(net.balance(1, 2).local_pending_debt, 10);
    let counter = net.friend(1, 2).token_channel.move_token_counter;

    // the next move token from node 1 to node 2 is tampered with
    net.tamper = Some((1, 2));
    net.respond = true;
    assert!(net.pay(8, &[0, 1, 2], 5, 0));
    assert!(net.tamper.is_none());

    // both applications heard of the freeze, and of the restart
    for (i, j) in [(1, 2), (2, 1)] {
        let friend = net.pk(j);
        let heard: Vec<&AppEvent> = net
            .events
            .iter()
            .filter(|(at, event)| {
                *at == i
                    && matches!(event, AppEvent::ChannelInconsistent(_) | AppEvent::ChannelConsistent(_))
            })
            .map(|(_, event)| event)
            .collect();
        assert_eq!(
            heard,
            vec![&AppEvent::ChannelInconsistent(friend), &AppEvent::ChannelConsistent(friend)]
        );
        assert!(net.index.iter().any(|(at, mutation)| *at == i
            && mutation.index_mutation == IndexMutation::RemoveFriend(friend)));
    }
    // the channel is consistent again, with nothing pending
    let (a, b) = (net.friend(1, 2), net.friend(2, 1));
    assert!(!matches!(a.token_channel.status, TcStatus::Inconsistent(_, _)));
    assert!(!matches!(b.token_channel.status, TcStatus::Inconsistent(_, _)));
    assert_eq!(a.token_channel.move_token_counter, b.token_channel.move_token_counter);
    assert!(a.token_channel.move_token_counter > counter);
    assert_eq!(net.balance(1, 2).balance, -net.balance(2, 1).balance);
    assert_eq!(net.balance(1, 2).local_pending_debt, 0);
    assert_eq!(net.balance(2, 1).remote_pending_debt, 0);
    // the balance is that of the terms that were taken: node 2 counted the
    // pending request as paid, node 1 counted it as lost
    assert!(net.balance(2, 1).balance == 10 || net.balance(2, 1).balance == 0);
    // the requests that hung on the channel were cancelled toward node 0
    let cancelled: Vec<[u8; 16]> = net.cancels_at(0).iter().map(|c| c.request_id).collect();
    assert!(cancelled.contains(&[7u8; 16]));
    assert!(cancelled.contains(&[8u8; 16]));
    assert!(net.cancels_at(0).iter().all(|c| c.reporting_public_key == net.pk(1)));
    assert_eq!(net.balance(0, 1).balance, 0);
    assert_eq!(net.balance(0, 1).local_pending_debt, 0);
    // payments pass again
    assert!(net.pay(9, &[0, 1, 2], 3, 0));
    assert_eq!(net.responses_at(0), vec![[9u8; 16]]);
}

#[test]
fn restart_sends_the_move_token_again() {
    let mut net = Net::new(2, 16);
    net.connect(0, 1, 100, FREE, FREE);
    net.respond = false;
    // node 0 composes a move token with a request; the state is stored, and
    // the node stops before the move token is on the wire
    let friend = net.pk(1);
    if !net.friend(0, 1).token_channel.holds_token() {
        let first = net.pk(0);
        let node = &mut net.nodes[1];
        let k = node.router.find_friend(&first).unwrap();
        let mut output = RouterOutput::new();
        node.router.flush_friend(k, NONCE, true, &sign_with(&node.key), &mut output);
        net.run(1, output);
    }
    assert!(net.friend(0, 1).token_channel.holds_token());
    let node = &mut net.nodes[0];
    let mut output = RouterOutput::new();
    let request = RequestSendFundsOp {
        request_id: [7u8; 16],
        src_hashed_lock: [1u8; 32],
        route_remainder: vec![friend],
        dest_payment: 10,
        total_dest_payment: 10,
        invoice_hash: [2u8; 32],
        hmac: [3u8; 32],
        left_fees: 0,
    };
    assert!(node.router.send_request(currency(), request, &mut output));
    node.router.flush_all(NONCE, &sign_with(&node.key), &mut output);
    assert_eq!(output.friends_messages.len(), 1);
    let stored = node.router.clone();
    drop(output);

    // after the restart nobody is within reach; the friend comes back
    let mut restarted = stored.clone();
    restarted.friends[0].is_online = false;
    let output = set_friend_online(&mut restarted, friend, NONCE, &sign_with(&node.key));
    assert_eq!(output.friends_messages.len(), 1);
    assert!(matches!(output.friends_messages[0].send, FriendSend::MoveToken(_)));
    assert_eq!(restarted.friends[0].token_channel, stored.friends[0].token_channel);
    node.router = restarted;
    net.run(0, output);
    assert_eq!(net.balance(1, 0).remote_pending_debt, 10);
    // the same move token once more is ignored
    let move_token = net.friend(0, 1).token_channel.outgoing_move_token().map(|t| t.clone());
    if let Some(move_token) = move_token {
        let from = net.pk(0);
        let node = &mut net.nodes[1];
        let before = node.router.clone();
        handle_friend_message(
            &mut node.router,
            from,
            FriendMessage::MoveTokenRequest(MoveTokenRequest { move_token, token_wanted: false }),
            NONCE,
            &sign_with(&node.key),
        );
        assert_eq!(node.router, before);
    }
    assert_eq!(net.balance(1, 0).remote_pending_debt, 10);
}
