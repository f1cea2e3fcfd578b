use snap_sync::account::{
    decode_slim_account, decode_storage_value, slim_account_from_fields, SlimAccount,
};
use snap_sync::error::{bad_response_error, DownloadError, RequestError};
use snap_sync::hashing::empty_root_hash;
use snap_sync::primitives::{B256, U256};

const EMPTY_ROOT: [u8; 32] = [
    0x56, 0xe8, 0x1f, 0x17, 0x1b, 0xcc, 0x55, 0xa6, 0xff, 0x83, 0x45, 0xe6, 0x92, 0xc0, 0xf8, 0x6e,
    0x5b, 0x48, 0xe0, 0x1b, 0x99, 0x6c, 0xad, 0xc0, 0x01, 0x62, 0x2f, 0xb5, 0xe3, 0x63, 0xb4, 0x21,
];

fn small(value: u8) -> U256 {
    let mut bytes = [0u8; 32];
    bytes[31] = value;
    U256(bytes)
}

/// A list of fields.
fn list(fields: &[Vec<u8>]) -> Vec<u8> {
    let payload = fields.concat();
    let mut body = Vec::new();
    alloy_rlp::Header { list: true, payload_length: payload.len() }.encode(&mut body);
    body.extend_from_slice(&payload);
    body
}

fn string(bytes: &[u8]) -> Vec<u8> {
    let mut out = Vec::new();
    alloy_rlp::Encodable::encode(bytes, &mut out);
    out
}

#[test]
fn empty_root_is_that_of_an_empty_trie() {
    assert_eq!(empty_root_hash(), B256(EMPTY_ROOT));
    assert_eq!(empty_root_hash().0, alloy_primitives::keccak256([0x80]).0);
}

#[test]
fn bad_responses_have_one_error() {
    assert_eq!(bad_response_error(), DownloadError::RequestError(RequestError::BadResponse));
}

#[test]
fn plain_account_is_decoded() {
    assert_eq!(
        decode_slim_account(&[0xc4, 0x01, 0x02, 0x80, 0x80]),
        Ok(SlimAccount {
            nonce: 1,
            balance: small(2),
            storage_root: B256(EMPTY_ROOT),
            bytecode_hash: None,
        })
    );
}

#[test]
fn contract_account_is_decoded() {
    let body = list(&[
        string(&[0x01, 0x00]),
        string(&[0xff; 32]),
        string(&[0x11; 32]),
        string(&[0x22; 32]),
    ]);
    assert_eq!(
        decode_slim_account(&body),
        Ok(SlimAccount {
            nonce: 256,
            balance: U256([0xff; 32]),
            storage_root: B256([0x11; 32]),
            bytecode_hash: Some(B256([0x22; 32])),
        })
    );
}

#[test]
fn malformed_accounts_are_rejected() {
    let one = string(&[1]);
    let none = string(&[]);
    let bodies = [
        // Nothing, and a byte string in place of the list.
        vec![],
        vec![0x84, 0x01, 0x02, 0x80, 0x80],
        // A missing field.
        list(&[one.clone(), one.clone(), none.clone()]),
        list(&[one.clone()]),
        vec![0xc0],
        // A nonce with a leading zero, and one that is too large.
        list(&[vec![0x00], one.clone(), none.clone(), none.clone()]),
        list(&[string(&[1; 9]), one.clone(), none.clone(), none.clone()]),
        // A balance with a leading zero, and one that is too large.
        list(&[one.clone(), vec![0x82, 0x00, 0x01], none.clone(), none.clone()]),
        list(&[one.clone(), string(&[1; 33]), none.clone(), none.clone()]),
        // A storage root and a code hash of the wrong length.
        list(&[one.clone(), one.clone(), string(&[1; 31]), none.clone()]),
        list(&[one.clone(), one.clone(), none.clone(), string(&[1; 33])]),
        // A list in place of a field.
        list(&[one.clone(), one.clone(), vec![0xc0], none.clone()]),
    ];
    for body in bodies {
        assert_eq!(decode_slim_account(&body), Err(bad_response_error()), "{:?}", body);
    }
}

#[test]
fn fields_are_put_together() {
    let account = |storage_root, bytecode_hash| {
        Ok(SlimAccount { nonce: 7, balance: small(8), storage_root, bytecode_hash })
    };
    let hash = [3u8; 32];
    assert_eq!(
        slim_account_from_fields(7, small(8), &[], &[]),
        account(B256(EMPTY_ROOT), None)
    );
    assert_eq!(
        slim_account_from_fields(7, small(8), &hash, &hash),
        account(B256(hash), Some(B256(hash)))
    );
    let bad = Err(bad_response_error());
    assert_eq!(slim_account_from_fields(7, small(8), &hash[..31], &[]), bad);
    assert_eq!(slim_account_from_fields(7, small(8), &[], &hash[..1]), bad);
}

#[test]
fn storage_values_are_decoded() {
    assert_eq!(decode_storage_value(&[0x80]), Ok(small(0)));
    assert_eq!(decode_storage_value(&[0x7f]), Ok(small(0x7f)));
    assert_eq!(decode_storage_value(&[0x81, 0x80]), Ok(small(0x80)));
    assert_eq!(decode_storage_value(&string(&[0xab; 32])), Ok(U256([0xab; 32])));
    // What follows the value is ignored.
    assert_eq!(decode_storage_value(&[0x05, 0xff]), Ok(small(5)));
    let bad = Err(bad_response_error());
    assert_eq!(decode_storage_value(&[]), bad);
    assert_eq!(decode_storage_value(&[0x00]), bad);
    assert_eq!(decode_storage_value(&[0x81, 0x05]), bad);
    assert_eq!(decode_storage_value(&[0xc0]), bad);
    assert_eq!(decode_storage_value(&string(&[1; 33])), bad);
}

#[test]
fn headers_have_to_be_in_their_shortest_form() {
    let hash = string(&[0x11; 32]);
    let fields = [vec![0x01], vec![0x02], hash.clone(), hash.clone()].concat();
    assert_eq!(fields.len(), 68);
    // The length of the list takes a byte of its own.
    let body = [vec![0xf8, 68], fields.clone()].concat();
    assert!(decode_slim_account(&body).is_ok());
    // A leading zero in the length, a width too large, a payload that is not all there.
    let bad = Err(bad_response_error());
    assert_eq!(decode_slim_account(&[vec![0xf9, 0, 68], fields.clone()].concat()), bad);
    assert_eq!(decode_slim_account(&[0xf9, 68]), bad);
    assert_eq!(decode_slim_account(&body[..69]), bad);
    // A length that the first byte could hold.
    assert_eq!(decode_slim_account(&[0xf8, 4, 0x01, 0x02, 0x80, 0x80]), bad);
    let long = Err(bad_response_error());
    assert_eq!(decode_storage_value(&[vec![0xb8, 32], vec![0xab; 32]].concat()), long);
    assert_eq!(decode_storage_value(&[0x81]), long);
    assert_eq!(decode_storage_value(&[0x82, 0x01]), long);
}
