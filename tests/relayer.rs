use nyx_privacy_core::relayer::{
    OperationType, RelayOutput, RelayRequest, RelayStatus, RelayerClient, RelayerError, RelayerInfo,
};

fn info(id: &str, fee_bps: u16, online: bool, time: u32, ops: Vec<OperationType>) -> RelayerInfo {
    RelayerInfo {
        id: id.to_string(),
        endpoint: format!("https://{}.example.com", id),
        fee_bps,
        min_amount: 1000,
        supported_operations: ops,
        is_online: online,
        avg_confirmation_time: time,
    }
}

#[test]
fn test_relayer_selection() {
    let mut client = RelayerClient::new();
    assert!(client.select_relayer(&OperationType::Transfer).is_err());
    client.add_relayer(RelayerInfo {
        id: "offline".to_string(),
        endpoint: "https://offline.example.com".to_string(),
        fee_bps: 10,
        min_amount: 1000,
        supported_operations: vec![OperationType::Transfer],
        is_online: false,
        avg_confirmation_time: 5,
    });
    assert!(client.select_relayer(&OperationType::Transfer).is_err());
    client.add_relayer(RelayerInfo {
        id: "online".to_string(),
        endpoint: "https://online.example.com".to_string(),
        fee_bps: 30,
        min_amount: 1000,
        supported_operations: vec![OperationType::Transfer],
        is_online: true,
        avg_confirmation_time: 5,
    });
    let relayer = client.select_relayer(&OperationType::Transfer).unwrap();
    assert_eq!(relayer.id, "online");
}

#[test]
fn selection_prefers_lower_fee_then_speed_then_first() {
    let mut client = RelayerClient::new();
    client.add_relayer(info("slow", 20, true, 9, vec![OperationType::Transfer]));
    client.add_relayer(info("fast", 20, true, 3, vec![OperationType::Transfer]));
    client.add_relayer(info("twin", 20, true, 3, vec![OperationType::Transfer]));
    client.add_relayer(info("pricey", 600, true, 1, vec![OperationType::Transfer]));
    assert_eq!(client.select_relayer(&OperationType::Transfer).unwrap().id, "fast");
    assert!(matches!(
        client.select_relayer(&OperationType::UnshieldSol),
        Err(RelayerError::NoRelayersAvailable)
    ));
}

#[test]
fn token_unshield_matches_by_mint() {
    let mut client = RelayerClient::with_settings(100, 30);
    client.add_relayer(info("tok", 10, true, 2, vec![OperationType::UnshieldToken { mint: "M1".to_string() }]));
    assert!(client.select_relayer(&OperationType::UnshieldToken { mint: "M1".to_string() }).is_ok());
    assert!(client.select_relayer(&OperationType::UnshieldToken { mint: "M2".to_string() }).is_err());
}

#[test]
fn fee_estimate_values() {
    let mut client = RelayerClient::new();
    client.add_relayer(info("a", 30, true, 5, vec![OperationType::Transfer, OperationType::UnshieldToken { mint: "M".to_string() }]));
    assert_eq!(client.estimate_fee(&OperationType::Transfer, 1_000_000_000).unwrap(), (3_000_000, 5_000));
    assert_eq!(
        client.estimate_fee(&OperationType::UnshieldToken { mint: "M".to_string() }, 1000).unwrap(),
        (3, 10_000)
    );
    assert!(client.estimate_fee(&OperationType::UnshieldSol, 1000).is_err());
}

#[test]
fn default_relayer_is_offline() {
    let mut client = RelayerClient::new();
    client.add_default_relayers();
    assert!(client.select_relayer(&OperationType::Transfer).is_err());
}

#[test]
fn submit_builds_request_id_and_checks_fee() {
    let mut client = RelayerClient::new();
    client.add_relayer(info("a", 30, true, 5, vec![OperationType::Transfer, OperationType::UnshieldSol]));
    let mut nullifier = [0u8; 32];
    for (i, b) in nullifier.iter_mut().enumerate() {
        *b = i as u8 + 0xa0;
    }
    let request = RelayRequest {
        operation: OperationType::Transfer,
        nullifier,
        output: RelayOutput::Commitment([1u8; 32]),
        proof: vec![0u8; 256],
        merkle_root: [2u8; 32],
        max_fee: 3_000_000,
    };
    let resp = client.submit(request.clone()).unwrap();
    assert_eq!(resp.request_id, "req_a0a1a2a3a4a5a6a7");
    assert_eq!(resp.fee, 3_000_000);
    assert!(matches!(resp.status, RelayStatus::Pending));
    assert_eq!(resp.estimated_confirmation_time, Some(5));
    let mut cheap = request.clone();
    cheap.max_fee = 10;
    assert!(matches!(client.submit(cheap), Err(RelayerError::FeeTooHigh(30, 500))));
    let unshield = RelayRequest {
        output: RelayOutput::Unshield { recipient: "r".to_string(), amount: 10_000 },
        operation: OperationType::UnshieldSol,
        ..request
    };
    assert_eq!(client.submit(unshield).unwrap().fee, 30);
}
