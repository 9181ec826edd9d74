//! The stable binary format: exact layouts and executable round trips.

use ic_talent::codec::{read_bytes, read_str, read_u32, read_u64, write_bytes, write_str,
    write_u32, write_u64};
use ic_talent::identity::Identity;
use ic_talent::types::{FaucetTokenRequest, IdList, RequestStatus, StoreValue, TokenMetadata};

fn id(byte: u8) -> Identity {
    Identity::from_bytes(vec![byte]).unwrap()
}

#[test]
fn integers_are_little_endian() {
    let mut out: Vec<u8> = Vec::new();
    write_u32(&mut out, 0x0102_0304);
    assert_eq!(out, vec![4, 3, 2, 1]);
    write_u64(&mut out, 5);
    assert_eq!(out[4..], [5, 0, 0, 0, 0, 0, 0, 0]);
    assert_eq!(read_u32(&out, 0), Some((0x0102_0304, 4)));
    assert_eq!(read_u64(&out, 4), Some((5, 12)));
    assert_eq!(read_u64(&out, 5), None);
}

#[test]
fn byte_strings_are_length_prefixed() {
    let mut out: Vec<u8> = Vec::new();
    write_bytes(&mut out, &vec![9, 8, 7]);
    assert_eq!(out, vec![3, 0, 0, 0, 0, 0, 0, 0, 9, 8, 7]);
    let (back, next) = read_bytes(&out, 0).unwrap();
    assert_eq!(back, vec![9, 8, 7]);
    assert_eq!(next, 11);
}

#[test]
fn text_is_utf8_behind_a_length_prefix() {
    let mut out: Vec<u8> = Vec::new();
    write_str(&mut out, &"héllo".to_string());
    let (back, next) = read_str(&out, 0).unwrap();
    assert_eq!(back, "héllo");
    assert_eq!(next, out.len());
    // Corrupt the UTF-8 payload: decoding must refuse it.
    let mut bad = out.clone();
    let last = bad.len() - 1;
    bad[last] = 0xFF;
    bad[last - 1] = 0xFF;
    assert!(read_str(&bad, 0).is_none());
}

#[test]
fn faucet_record_layout_is_exact() {
    let rec = FaucetTokenRequest {
        current_token_request: 1,
        total_number_of_request: 2,
        total_token_given: 3,
        status: RequestStatus::Pending,
    };
    let bytes = rec.encode();
    assert_eq!(
        bytes,
        vec![1, 0, 0, 0, 2, 0, 0, 0, 3, 0, 0, 0, 0, 0, 0, 0, 0]
    );
    let approved = FaucetTokenRequest { status: RequestStatus::Approved, ..rec };
    assert_eq!(*approved.encode().last().unwrap(), 1);
}

#[test]
fn faucet_record_round_trips() {
    let rec = FaucetTokenRequest {
        current_token_request: 50,
        total_number_of_request: 7,
        total_token_given: 350,
        status: RequestStatus::Rejected,
    };
    let back = FaucetTokenRequest::decode(&rec.encode()).unwrap();
    assert_eq!(back, rec);
    // A truncated buffer decodes to nothing.
    let mut cut = rec.encode();
    cut.pop();
    assert!(FaucetTokenRequest::decode(&cut).is_none());
    // Bytes a later revision appended after the known fields are ignored.
    let mut extended = rec.encode();
    extended.extend_from_slice(&[7, 7, 7]);
    assert_eq!(FaucetTokenRequest::decode(&extended).unwrap(), rec);
}

#[test]
fn token_record_round_trips() {
    let rec = TokenMetadata {
        name: "Ålpha tokén".to_string(),
        symbol: "ALP".to_string(),
        decimals: 8,
        token_price: 12,
        owner: id(7),
        logo: Some("logo.png".to_string()),
        created: 777,
    };
    let back = TokenMetadata::decode(&rec.encode()).unwrap();
    assert_eq!(back.name, rec.name);
    assert_eq!(back.symbol, rec.symbol);
    assert_eq!(back.decimals, rec.decimals);
    assert_eq!(back.token_price, rec.token_price);
    assert!(back.owner.same_as(&rec.owner));
    assert_eq!(back.logo, rec.logo);
    assert_eq!(back.created, rec.created);
}

#[test]
fn token_record_without_logo_round_trips() {
    let rec = TokenMetadata {
        name: String::new(),
        symbol: String::new(),
        decimals: 0,
        token_price: 0,
        owner: Identity::management(),
        logo: None,
        created: 0,
    };
    let back = TokenMetadata::decode(&rec.encode()).unwrap();
    assert_eq!(back.name, "");
    assert!(back.logo.is_none());
    assert!(back.owner.same_as(&Identity::management()));
}

#[test]
fn id_lists_round_trip() {
    let list = IdList { ids: vec![id(1), id(2), id(3)] };
    let back = IdList::decode(&list.encode()).unwrap();
    assert_eq!(back.ids.len(), 3);
    for (a, b) in back.ids.iter().zip(list.ids.iter()) {
        assert!(a.same_as(b));
    }
    let empty = IdList { ids: Vec::new() };
    assert_eq!(IdList::decode(&empty.encode()).unwrap().ids.len(), 0);
}

#[test]
fn identities_know_their_special_values() {
    let anon = Identity::anonymous();
    assert!(anon.is_anonymous());
    assert!(!Identity::management().is_anonymous());
    assert!(!id(6).is_anonymous());
    assert_eq!(anon.as_bytes(), &vec![4u8]);
    assert!(Identity::from_bytes(vec![0; 30]).is_none());
    let full = Identity::from_bytes(vec![0; 29]).unwrap();
    assert_eq!(full.as_bytes().len(), 29);
    let copy = full.clone();
    assert!(copy.same_as(&full));
}
