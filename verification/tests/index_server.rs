use funder::index_server::{
    ForwardMutationsUpdate, FriendsRoute, IndexClientToServer, IndexMutation, IndexServerAddress,
    IndexServerToClient, IndexServerToServer, MultiRoute, MutationsUpdate, NamedIndexServerAddress,
    NetAddress, RequestRoutes, ResponseRoutes, RouteCapacityRate, TimeProofLink, UpdateFriend,
};
use funder::messages::{
    FunderMutation, FunderToChanneler, FunderToDatabase, ResponseSendFundsResult, SendFundsReceipt,
};
use funder::mutual_credit::McMutation;
use funder::types::{Currency, Rate};

#[test]
fn address_without_its_name() {
    let named = NamedIndexServerAddress {
        public_key: [1u8; 32],
        address: NetAddress { address: String::from("127.0.0.1:1337") },
        name: String::from("index0"),
    };
    let address = IndexServerAddress::from(named.clone());
    assert_eq!(address.public_key, named.public_key);
    assert_eq!(address.address, named.address);
    let plain: IndexServerAddress<u32> =
        NamedIndexServerAddress { public_key: [2u8; 32], address: 7u32, name: String::new() }.into();
    assert_eq!(plain, IndexServerAddress { public_key: [2u8; 32], address: 7 });
}

#[test]
fn index_messages_hold_their_parts() {
    let route = RouteCapacityRate {
        route: FriendsRoute { public_keys: vec![[1u8; 32], [2u8; 32]] },
        capacity: 20,
        rate: Rate { mul: 0, add: 2 },
    };
    let response = ResponseRoutes {
        request_id: [3u8; 16],
        multi_routes: vec![MultiRoute { routes: vec![route.clone()] }],
    };
    assert_eq!(response.multi_routes[0].routes[0], route);
    let request = RequestRoutes {
        request_id: [3u8; 16],
        capacity: 20,
        source: [1u8; 32],
        destination: [2u8; 32],
        opt_exclude: Some(([1u8; 32], [2u8; 32])),
    };
    assert_eq!(request.clone(), request);
    let update = MutationsUpdate {
        node_public_key: [1u8; 32],
        index_mutations: vec![
            IndexMutation::UpdateFriend(UpdateFriend {
                public_key: [2u8; 32],
                send_capacity: 0,
                recv_capacity: 5,
                rate: Rate { mul: 1, add: 2 },
            }),
            IndexMutation::RemoveFriend([2u8; 32]),
        ],
        time_hash: [4u8; 32],
        session_id: [5u8; 16],
        counter: 0,
        rand_nonce: [6u8; 16],
        signature: [7u8; 64],
    };
    let forward = ForwardMutationsUpdate {
        mutations_update: update.clone(),
        time_proof_chain: vec![TimeProofLink { hashes: vec![[8u8; 32]] }],
    };
    assert_eq!(forward.time_proof_chain[0].hashes.len(), 1);
    assert!(matches!(IndexServerToClient::TimeHash([4u8; 32]), IndexServerToClient::TimeHash(_)));
    assert!(matches!(
        IndexServerToClient::ResponseRoutes(response),
        IndexServerToClient::ResponseRoutes(ref r) if r.request_id == [3u8; 16]
    ));
    assert!(matches!(
        IndexClientToServer::MutationsUpdate(update),
        IndexClientToServer::MutationsUpdate(ref u) if u.index_mutations.len() == 2
    ));
    assert!(matches!(IndexClientToServer::RequestRoutes(request), IndexClientToServer::RequestRoutes(_)));
    assert!(matches!(
        IndexServerToServer::ForwardMutationsUpdate(forward),
        IndexServerToServer::ForwardMutationsUpdate(_)
    ));
    assert!(matches!(IndexServerToServer::TimeHash([0u8; 32]), IndexServerToServer::TimeHash(_)));
}

#[test]
fn funder_messages_hold_their_parts() {
    let receipt = SendFundsReceipt {
        response_hash: [1u8; 32],
        invoice_hash: [2u8; 32],
        request_id: [3u8; 16],
        dest_payment: 10,
        total_dest_payment: 10,
        signature: [4u8; 64],
    };
    assert!(matches!(ResponseSendFundsResult::Success(receipt), ResponseSendFundsResult::Success(r) if r == receipt));
    assert!(matches!(ResponseSendFundsResult::Failure([5u8; 32]), ResponseSendFundsResult::Failure(pk) if pk == [5u8; 32]));
    let to_database = FunderToDatabase::Mutation(FunderMutation {
        friend_public_key: [5u8; 32],
        currency: Currency::from_bytes(b"FST").unwrap(),
        mc_mutation: McMutation::CancelLocalPendingTransaction([3u8; 16]),
    });
    assert_eq!(to_database.clone(), to_database);
    let send: FunderToChanneler<u8> = FunderToChanneler::SendChannelMessage {
        friend_public_key: [5u8; 32],
        content: vec![1, 2, 3],
    };
    assert!(matches!(send, FunderToChanneler::SendChannelMessage { ref content, .. } if content.len() == 3));
    assert!(matches!(FunderToChanneler::AddFriend { info: 7u8 }, FunderToChanneler::AddFriend { info: 7 }));
    assert!(matches!(
        FunderToChanneler::<u8>::RemoveFriend { friend_public_key: [5u8; 32] },
        FunderToChanneler::RemoveFriend { .. }
    ));
}
