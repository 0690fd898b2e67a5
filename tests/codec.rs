use mit::{AffiliateLink, Campaign, CampaignData, CampaignStatus, CustomError};
use mit::address::{affiliate_address, campaign_address, derive_address, program_id};
use mit::codec::{decode_affiliate, decode_campaign, encode_affiliate, encode_campaign};

fn link() -> AffiliateLink {
    AffiliateLink { campaign_id: 258, affiliate_pubkey: [7u8; 32], unique_link: b"ab".to_vec(), total_clicks: 3, claimed: true }
}

#[test]
fn affiliate_image_layout() {
    let b = encode_affiliate(&link()).unwrap();
    let mut want: Vec<u8> = vec![78, 8, 126, 239, 179, 52, 55, 238];
    want.extend_from_slice(&[2, 1, 0, 0, 0, 0, 0, 0]);
    want.extend_from_slice(&[7u8; 32]);
    want.extend_from_slice(&[2, 0, 0, 0, b'a', b'b']);
    want.extend_from_slice(&[3, 0, 0, 0, 0, 0, 0, 0]);
    want.push(1);
    assert_eq!(b, want);
}

#[test]
fn affiliate_round_trip() {
    let b = encode_affiliate(&link()).unwrap();
    let a = decode_affiliate(&b).unwrap();
    assert_eq!(a.campaign_id, 258);
    assert_eq!(a.unique_link, b"ab".to_vec());
    assert_eq!(a.total_clicks, 3);
    assert!(a.claimed);
}

#[test]
fn campaign_round_trip() {
    let c = Campaign {
        campaign_id: 9,
        advertiser: [3u8; 32],
        data: CampaignData {
            name: b"n".to_vec(),
            cta_link: vec![],
            logo: vec![b'z'; 100],
            start_date: 1,
            end_date: 2,
            budget: 3,
            rate_per_click: 4,
            clicks: 5,
            remaining_budget: 6,
            status: CampaignStatus::Cancelled,
        },
    };
    let b = encode_campaign(&c).unwrap();
    assert_eq!(b.len(), 8 + 8 + 32 + 5 + 4 + 104 + 48 + 1);
    assert_eq!(*b.last().unwrap(), 3);
    let d = decode_campaign(&b).unwrap();
    assert_eq!(d.data.logo.len(), 100);
    assert_eq!(d.data.status, CampaignStatus::Cancelled);
    assert_eq!(d.data.remaining_budget, 6);
    assert_eq!(decode_affiliate(&b).err(), Some(CustomError::MalformedData));
    assert_eq!(decode_campaign(&encode_affiliate(&link()).unwrap()).err(), Some(CustomError::MalformedData));
    assert_eq!(decode_campaign(&b[..b.len() - 1].to_vec()).err(), Some(CustomError::MalformedData));
}

#[test]
fn status_tags_follow_declaration_order() {
    assert_eq!(CampaignStatus::Upcoming.as_byte_vec(), vec![vec![0u8]]);
    assert_eq!(CampaignStatus::Ongoing.as_byte_vec(), vec![vec![1u8]]);
    assert_eq!(CampaignStatus::Completed.as_byte_vec(), vec![vec![2u8]]);
    assert_eq!(CampaignStatus::Cancelled.as_byte_vec(), vec![vec![3u8]]);
    assert_eq!(CampaignStatus::default(), CampaignStatus::Upcoming);
    assert_eq!(CampaignStatus::from_tag(4), None);
}

#[test]
fn oversized_name_is_not_encoded() {
    let mut c = Campaign {
        campaign_id: 1,
        advertiser: [0u8; 32],
        data: CampaignData {
            name: vec![b'x'; 101],
            cta_link: vec![],
            logo: vec![],
            start_date: 0,
            end_date: 0,
            budget: 0,
            rate_per_click: 0,
            clicks: 0,
            remaining_budget: 0,
            status: CampaignStatus::Upcoming,
        },
    };
    assert_eq!(encode_campaign(&c).err(), Some(CustomError::OversizedField));
    c.data.name.pop();
    assert!(encode_campaign(&c).is_ok());
}

#[test]
fn address_derivation_is_deterministic() {
    let tree = [4u8; 32];
    let a1 = campaign_address(&tree, &[1u8; 32], 1);
    let a2 = campaign_address(&tree, &[1u8; 32], 1);
    assert_eq!(a1, a2);
    assert_eq!(a1[0], 0);
    assert_ne!(a1, campaign_address(&tree, &[1u8; 32], 2));
    assert_ne!(a1, campaign_address(&tree, &[2u8; 32], 1));
    assert_ne!(a1, affiliate_address(&tree, &[1u8; 32], 1));
    assert_ne!(a1, campaign_address(&[5u8; 32], &[1u8; 32], 1));
    let seeds = vec![b"campaign".to_vec(), vec![1u8; 32], 1u64.to_le_bytes().to_vec()];
    assert_eq!(derive_address(&seeds, &tree), a1);
    assert_ne!(a1.to_vec(), seeds.concat()[..32].to_vec());
    assert_eq!(program_id()[0], 103);
}
