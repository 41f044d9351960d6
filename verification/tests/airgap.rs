use wallet_core::airgap::encode_to_ur;
use wallet_core::domain::AirgapProvider;
use wallet_core::UrAdapter;

#[test]
fn empty_data_is_refused() {
    assert_eq!(
        UrAdapter.encode_to_ur(&[]).unwrap_err(),
        "fountain: expected non-empty message"
    );
}

#[test]
fn small_data_is_one_fragment() {
    let parts = UrAdapter.encode_to_ur(b"data").unwrap();
    assert_eq!(parts.len(), 1);
    assert!(parts[0].starts_with("ur:bytes/1-1/"));
}

#[test]
fn fragments_count_follows_the_fragment_length() {
    let data = vec![0xabu8; 450];
    let parts = UrAdapter.encode_to_ur(&data).unwrap();
    assert_eq!(parts.len(), 3);
    for (i, part) in parts.iter().enumerate() {
        assert!(part.starts_with(&format!("ur:bytes/{}-3/", i + 1)));
    }
    let data = vec![1u8; 200];
    assert_eq!(UrAdapter.encode_to_ur(&data).unwrap().len(), 1);
    let data = vec![1u8; 201];
    assert_eq!(UrAdapter.encode_to_ur(&data).unwrap().len(), 2);
}

#[test]
fn fragments_decode_back_to_the_data() {
    let data: Vec<u8> = (0..=255u8).cycle().take(700).collect();
    let parts = encode_to_ur(&data, "bytes").unwrap();
    let mut decoder = ur::Decoder::default();
    for part in &parts {
        decoder.receive(part).unwrap();
    }
    assert!(decoder.complete());
    assert_eq!(decoder.message().unwrap().unwrap(), data);
}

#[test]
fn every_nonempty_message_is_encoded_with_numbered_parts() {
    for len in [1usize, 2, 198, 199, 400, 401, 1000] {
        let data = vec![0x11u8; len];
        let parts = UrAdapter.encode_to_ur(&data).unwrap();
        assert!(!parts.is_empty());
        let n = parts.len();
        for (i, part) in parts.iter().enumerate() {
            assert!(part.starts_with(&format!("ur:bytes/{}-{}/", i + 1, n)));
        }
    }
}
