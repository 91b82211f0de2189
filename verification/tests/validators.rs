use linera_toolkit::chain::{
    AccountOwner, AccountPublicKey, Amount, BlobId, BlockHeight, ChainId, CryptoHash, Round,
    ValidatorPublicKey,
};
use linera_toolkit::faults::{
    blob_last_used_by_response, certificate_response, chain_info_response,
    download_blob_response, network_description_response, proposal_response,
    upload_blob_response, ArithmeticError, BlobState, CertificateKind, FaultType, NodeError,
};
use linera_toolkit::harness::{
    find_validator, make_nodes_from_list, CertificateCheck, DownwardWalk, RootChain,
    RoundObservation, StorageNamespace, TestBuilder, WantedValidator,
};

const ALL_FAULTS: [FaultType; 7] = [
    FaultType::Honest,
    FaultType::Offline,
    FaultType::OfflineWithInfo,
    FaultType::Malicious,
    FaultType::DontSendConfirmVote,
    FaultType::DontProcessValidated,
    FaultType::DontSendValidateVote,
];

const ALL_KINDS: [CertificateKind; 3] = [
    CertificateKind::Timeout,
    CertificateKind::Validated,
    CertificateKind::Confirmed,
];

fn io_error(reason: &str) -> NodeError {
    NodeError::ClientIoError {
        error: reason.to_string(),
    }
}

fn worker_error() -> NodeError {
    NodeError::WorkerError {
        error: "invalid signature".to_string(),
    }
}

fn missing(n: u8) -> NodeError {
    NodeError::BlobsNotFound(vec![BlobId([n; 32])])
}

#[test]
fn offline_and_malicious_validators_ignore_proposals() {
    let expected = [true, false, false, false, true, true, true];
    for (fault, processes) in ALL_FAULTS.iter().zip(expected) {
        assert_eq!(fault.processes_proposal(), processes, "{fault:?}");
    }
}

#[test]
fn proposals_are_answered_by_fault() {
    let vote: Result<u32, NodeError> = proposal_response(FaultType::Honest, Some(Ok(7)));
    assert_eq!(vote, Ok(7));
    assert_eq!(
        proposal_response::<u32>(FaultType::Honest, Some(Err(worker_error()))),
        Err(worker_error())
    );
    assert_eq!(
        proposal_response(FaultType::DontSendConfirmVote, Some(Ok(7))),
        Ok(7)
    );
    assert_eq!(
        proposal_response(FaultType::DontProcessValidated, Some(Ok(7))),
        Ok(7)
    );
    assert_eq!(
        proposal_response(FaultType::DontSendValidateVote, Some(Ok(7))),
        Err(io_error("refusing to validate"))
    );
    assert_eq!(
        proposal_response::<u32>(FaultType::Offline, None),
        Err(io_error("offline"))
    );
    assert_eq!(
        proposal_response::<u32>(FaultType::OfflineWithInfo, None),
        Err(io_error("offline"))
    );
    assert_eq!(
        proposal_response::<u32>(FaultType::Malicious, None),
        Err(NodeError::ArithmeticError(ArithmeticError::Overflow))
    );
}

#[test]
fn missing_blobs_are_always_reported() {
    for fault in ALL_FAULTS {
        assert_eq!(
            proposal_response::<u32>(fault, Some(Err(missing(1)))),
            Err(missing(1)),
            "{fault:?}"
        );
        for kind in ALL_KINDS {
            assert_eq!(
                certificate_response::<u32>(fault, kind, Some(Err(missing(2)))),
                Err(missing(2)),
                "{fault:?} {kind:?}"
            );
        }
    }
}

#[test]
fn validated_certificates_are_skipped_by_one_fault_only() {
    for fault in ALL_FAULTS {
        for kind in ALL_KINDS {
            let expected = match (fault, kind) {
                (FaultType::Offline | FaultType::OfflineWithInfo, _) => false,
                (FaultType::DontProcessValidated, CertificateKind::Validated) => false,
                _ => true,
            };
            assert_eq!(
                fault.processes_certificate(kind),
                expected,
                "{fault:?} {kind:?}"
            );
        }
    }
}

#[test]
fn certificates_are_answered_by_fault_and_kind() {
    for kind in ALL_KINDS {
        for fault in [
            FaultType::Honest,
            FaultType::Malicious,
            FaultType::DontSendValidateVote,
        ] {
            assert_eq!(certificate_response(fault, kind, Some(Ok(1))), Ok(1));
            assert_eq!(
                certificate_response::<u32>(fault, kind, Some(Err(worker_error()))),
                Err(worker_error())
            );
        }
        for fault in [FaultType::Offline, FaultType::OfflineWithInfo] {
            assert_eq!(
                certificate_response::<u32>(fault, kind, None),
                Err(io_error("offline"))
            );
        }
    }
    assert_eq!(
        certificate_response(
            FaultType::DontSendConfirmVote,
            CertificateKind::Validated,
            Some(Ok(1))
        ),
        Err(io_error("refusing to confirm"))
    );
    assert_eq!(
        certificate_response::<u32>(
            FaultType::DontProcessValidated,
            CertificateKind::Validated,
            None
        ),
        Err(io_error("refusing to confirm"))
    );
    for kind in [CertificateKind::Confirmed, CertificateKind::Timeout] {
        assert_eq!(
            certificate_response(FaultType::DontSendConfirmVote, kind, Some(Ok(1))),
            Ok(1)
        );
        assert_eq!(
            certificate_response(FaultType::DontProcessValidated, kind, Some(Ok(1))),
            Ok(1)
        );
    }
}

#[test]
fn only_the_offline_validator_keeps_chain_info_to_itself() {
    for fault in ALL_FAULTS {
        assert_eq!(
            fault.answers_chain_info_query(),
            fault != FaultType::Offline
        );
        if fault == FaultType::Offline {
            assert_eq!(
                chain_info_response::<u32>(fault, None),
                Err(io_error("offline"))
            );
        } else {
            assert_eq!(chain_info_response(fault, Some(Ok(3))), Ok(3));
            assert_eq!(
                chain_info_response::<u32>(fault, Some(Err(worker_error()))),
                Err(worker_error())
            );
        }
    }
}

#[test]
fn malicious_validators_create_chains_empty() {
    for fault in ALL_FAULTS {
        let expected = if fault == FaultType::Malicious {
            Amount(0)
        } else {
            Amount(5)
        };
        assert_eq!(fault.initial_balance(Amount(5)), expected);
    }
}

#[test]
fn blob_answers_follow_the_storage() {
    let id = BlobId([3; 32]);
    assert_eq!(upload_blob_response(id, Ok(vec![true])), Ok(id));
    assert_eq!(upload_blob_response(id, Ok(vec![true, false])), Ok(id));
    assert_eq!(upload_blob_response(id, Ok(vec![false, true])), Err(missing(3)));
    assert_eq!(upload_blob_response(id, Ok(vec![])), Err(missing(3)));
    assert_eq!(
        upload_blob_response(id, Err(worker_error())),
        Err(worker_error())
    );

    assert_eq!(download_blob_response(id, Ok(Some("content"))), Ok("content"));
    assert_eq!(
        download_blob_response::<&str>(id, Ok(None)),
        Err(missing(3))
    );
    assert_eq!(
        download_blob_response::<&str>(id, Err(worker_error())),
        Err(worker_error())
    );

    let hash = CryptoHash([8; 32]);
    assert_eq!(
        blob_last_used_by_response(
            id,
            Ok(Some(BlobState {
                last_used_by: Some(hash)
            }))
        ),
        Ok(hash)
    );
    assert_eq!(
        blob_last_used_by_response(id, Ok(Some(BlobState { last_used_by: None }))),
        Err(missing(3))
    );
    assert_eq!(blob_last_used_by_response(id, Ok(None)), Err(missing(3)));
    assert_eq!(
        blob_last_used_by_response(id, Err(worker_error())),
        Err(worker_error())
    );
}

#[test]
fn storage_without_network_description_is_an_error() {
    assert_eq!(network_description_response(Ok(Some(1))), Ok(1));
    assert_eq!(
        network_description_response::<u32>(Ok(None)),
        Err(NodeError::ViewError {
            error: "missing NetworkDescription".to_string()
        })
    );
    assert_eq!(
        network_description_response::<u32>(Err(worker_error())),
        Err(worker_error())
    );
}

#[test]
fn first_validators_of_a_new_network_are_malicious() {
    let builder = TestBuilder::new(4, 1);
    assert_eq!(builder.validator_count(), 4);
    assert_eq!(builder.fault_type(0), FaultType::Malicious);
    for index in 1..4 {
        assert_eq!(builder.fault_type(index), FaultType::Honest);
    }
    let builder = TestBuilder::new(2, 5);
    assert_eq!(builder.fault_type(1), FaultType::Malicious);
    assert_eq!(TestBuilder::new(0, 0).validator_count(), 0);
}

#[test]
fn faults_are_set_by_position() {
    let mut builder = TestBuilder::new(4, 1);
    builder.set_fault_type(&[1, 3, 1], FaultType::Offline);
    assert_eq!(builder.fault_type(0), FaultType::Malicious);
    assert_eq!(builder.fault_type(1), FaultType::Offline);
    assert_eq!(builder.fault_type(2), FaultType::Honest);
    assert_eq!(builder.fault_type(3), FaultType::Offline);
    builder.set_fault_type(&[], FaultType::DontSendConfirmVote);
    builder.set_fault_type(&[0], FaultType::Honest);
    assert_eq!(builder.fault_type(0), FaultType::Honest);
}

fn root_chain(index: u32, balance: u128) -> RootChain {
    RootChain {
        index,
        chain_id: ChainId([index as u8 + 100; 32]),
        public_key: AccountPublicKey([index as u8; 32]),
        owner: AccountOwner::Address32([index as u8 + 50; 32]),
        balance: Amount(balance),
    }
}

#[test]
fn admin_chain_comes_first() {
    let mut builder = TestBuilder::new(4, 1);
    assert_eq!(builder.admin_description(), None);
    assert!(builder.needs_admin_chain(1));
    assert_eq!(builder.chain_to_create_first(1), Some((0, Amount(0))));
    assert_eq!(builder.chain_to_create_first(7), Some((0, Amount(0))));
    assert_eq!(builder.chain_to_create_first(0), None);
    assert!(!builder.needs_admin_chain(0));
    assert_eq!(
        builder.add_root_chain(root_chain(0, 0)),
        vec![Amount(0); 4]
    );
    assert!(!builder.needs_admin_chain(1));
    assert_eq!(builder.chain_to_create_first(1), None);
    assert_eq!(builder.admin_id(), ChainId([100; 32]));
    assert_eq!(builder.admin_description(), Some(root_chain(0, 0)));
    assert_eq!(
        builder.add_root_chain(root_chain(1, 3)),
        vec![Amount(0), Amount(3), Amount(3), Amount(3)]
    );
    assert_eq!(builder.admin_id(), ChainId([100; 32]));
    assert!(builder.genesis_in_order());
    assert_eq!(
        builder.genesis_chains(),
        vec![
            (AccountPublicKey([0; 32]), Amount(0)),
            (AccountPublicKey([1; 32]), Amount(3))
        ]
    );
    assert_eq!(
        builder.chain_owner(&ChainId([101; 32])),
        Some(AccountOwner::Address32([51; 32]))
    );
    assert_eq!(builder.chain_owner(&ChainId([7; 32])), None);
}

#[test]
fn certificates_are_counted_by_chain_and_height() {
    let chain_id = ChainId([1; 32]);
    let other = ChainId([2; 32]);
    let height = BlockHeight(4);
    let answers = vec![
        Some((chain_id, height)),
        None,
        Some((other, height)),
        Some((chain_id, BlockHeight(5))),
        Some((chain_id, height)),
        None,
    ];
    assert_eq!(
        TestBuilder::check_that_validators_have_certificate(&answers, chain_id, height, 2),
        CertificateCheck {
            count: 2,
            holder: Some(4),
            enough: true
        }
    );
    assert_eq!(
        TestBuilder::check_that_validators_have_certificate(&answers, chain_id, height, 3),
        CertificateCheck {
            count: 2,
            holder: Some(4),
            enough: false
        }
    );
    assert_eq!(
        TestBuilder::check_that_validators_have_certificate(&answers, other, BlockHeight(9), 0),
        CertificateCheck {
            count: 0,
            holder: None,
            enough: true
        }
    );
}

#[test]
fn rounds_are_counted_over_signed_answers() {
    let in_round = RoundObservation {
        current_round: Round::MultiLeader(1),
        next_block_height: BlockHeight(2),
        signed: true,
    };
    let observations = vec![
        Some(in_round),
        Some(RoundObservation {
            signed: false,
            ..in_round
        }),
        None,
        Some(RoundObservation {
            current_round: Round::MultiLeader(2),
            ..in_round
        }),
        Some(RoundObservation {
            next_block_height: BlockHeight(3),
            ..in_round
        }),
        Some(in_round),
        Some(RoundObservation {
            current_round: Round::SingleLeader(1),
            ..in_round
        }),
    ];
    let check = |target| {
        TestBuilder::check_that_validators_are_in_round(
            &observations,
            BlockHeight(2),
            Round::MultiLeader(1),
            target,
        )
    };
    assert!(check(0));
    assert!(check(2));
    assert!(!check(3));
}

#[test]
fn outboxes_are_empty_when_no_validator_has_a_target() {
    assert!(TestBuilder::check_that_validators_have_empty_outboxes(&vec![]));
    assert!(TestBuilder::check_that_validators_have_empty_outboxes(&vec![0, 0, 0]));
    assert!(!TestBuilder::check_that_validators_have_empty_outboxes(&vec![0, 2, 0]));
}

#[test]
fn storages_are_numbered_within_one_name_space() {
    let mut names = StorageNamespace::new();
    assert!(names.needs_namespace());
    assert_eq!(names.next("table_a"), "table_a_1");
    assert!(!names.needs_namespace());
    assert_eq!(names.next("table_b"), "table_a_2");
    for _ in 2..10 {
        names.next("");
    }
    assert_eq!(names.next("x"), "table_a_11");
    assert_eq!(names.instance_count(), 11);
}

#[test]
fn walk_reads_down_to_the_limit_or_the_first_block() {
    let hash = |n: u8| CryptoHash([n; 32]);
    let mut walk = DownwardWalk::new(hash(5), 3);
    assert_eq!(walk.wanted(), Some(hash(5)));
    walk.block_read(Some(hash(4)));
    assert_eq!(walk.wanted(), Some(hash(4)));
    walk.block_read(Some(hash(3)));
    walk.block_read(Some(hash(2)));
    assert_eq!(walk.wanted(), None);

    let mut walk = DownwardWalk::new(hash(1), 3);
    walk.block_read(Some(hash(0)));
    assert_eq!(walk.wanted(), Some(hash(0)));
    walk.block_read(None);
    assert_eq!(walk.wanted(), None);

    assert_eq!(DownwardWalk::new(hash(1), 0).wanted(), None);
}

#[test]
fn walk_visits_the_blocks_from_the_start_down() {
    let hash = |n: u8| CryptoHash([n; 32]);
    // Block n names block n - 1 as the one before it; block 0 names none.
    let previous = |block: CryptoHash| (block.0[0] > 0).then(|| hash(block.0[0] - 1));
    for (from, limit, expected) in [
        (5, 3, vec![5, 4, 3]),
        (2, 10, vec![2, 1, 0]),
        (0, 1, vec![0]),
        (4, 0, vec![]),
        (3, 4, vec![3, 2, 1, 0]),
    ] {
        let mut walk = DownwardWalk::new(hash(from), limit);
        let mut visited = Vec::new();
        while let Some(wanted) = walk.wanted() {
            visited.push(wanted.0[0]);
            walk.block_read(previous(wanted));
        }
        assert_eq!(visited, expected);
    }
}

#[test]
fn wanted_validators_are_found_by_key() {
    let key = |n: u8| ValidatorPublicKey([n; 33]);
    let known = vec![key(1), key(2), key(3), key(2)];
    assert_eq!(find_validator(&known, &key(3)), Some(2));
    assert_eq!(find_validator(&known, &key(2)), Some(3));
    assert_eq!(find_validator(&known, &key(9)), None);
    let wanted = |n: u8| WantedValidator {
        public_key: key(n),
        address: format!("tcp:validator-{n}:80"),
    };
    assert_eq!(
        make_nodes_from_list(&known, &vec![wanted(3), wanted(1), wanted(3)]),
        Ok(vec![2, 0, 2])
    );
    assert_eq!(make_nodes_from_list(&known, &vec![]), Ok(vec![]));
    assert_eq!(
        make_nodes_from_list(&known, &vec![wanted(1), wanted(8), wanted(9)]),
        Err(NodeError::CannotResolveValidatorAddress {
            address: "tcp:validator-8:80".to_string()
        })
    );
}

#[test]
fn genesis_chains_must_be_created_in_order() {
    let mut builder = TestBuilder::new(1, 0);
    assert!(builder.genesis_in_order());
    builder.add_root_chain(root_chain(0, 1));
    builder.add_root_chain(root_chain(2, 1));
    assert!(!builder.genesis_in_order());
    let mut builder = TestBuilder::new(1, 0);
    builder.add_root_chain(root_chain(0, 1));
    builder.add_root_chain(root_chain(1, 1));
    builder.add_root_chain(root_chain(2, 1));
    assert!(builder.genesis_in_order());
}
