use mit::{
    claim, create, record_click, register_affiliate, register_v2, AffiliateLink, Campaign,
    CampaignData, CampaignStatus, Claim, Create, CustomError, LeafStore, LightRootParams, Party,
    RecordClick, RegisterAffiliate, RegisterAffiliateV2, Transfer, CLAIM_AMOUNT,
};
use mit::address::{affiliate_address, campaign_address};
use mit::codec::{decode_affiliate, decode_campaign};
use mit::store::{creation_inputs, update_inputs};

const A: [u8; 32] = [1u8; 32];
const B: [u8; 32] = [2u8; 32];
const TREE: [u8; 32] = [9u8; 32];

fn data(budget: u64) -> CampaignData {
    CampaignData {
        name: b"spring".to_vec(),
        cta_link: b"https://example.com".to_vec(),
        logo: b"logo.png".to_vec(),
        start_date: 10,
        end_date: 20,
        budget,
        rate_per_click: 5,
        clicks: 0,
        remaining_budget: budget,
        status: CampaignStatus::Upcoming,
    }
}

fn campaign(id: u64, budget: u64) -> Campaign {
    Campaign { campaign_id: id, advertiser: A, data: data(budget) }
}

fn at(i: u64) -> LightRootParams {
    LightRootParams { leaf_index: i }
}

fn clicks_request(c: &Campaign, ci: u64, a: &AffiliateLink, ai: u64) -> RecordClick {
    RecordClick { campaign: c.clone(), campaign_proof: at(ci), affiliate: a.clone(), affiliate_proof: at(ai) }
}

#[test]
fn full_lifecycle() {
    let mut store = LeafStore::new(TREE);
    let t = create(&mut store, &Create { signer: A }, 1, data(1000)).unwrap();
    assert_eq!(t, Transfer { from: Party::Wallet(A), to: Party::Vault(A), amount: 1000 });
    let image = store.live_data(&campaign_address(&TREE, &A, 1)).unwrap();
    let c = decode_campaign(&image).unwrap();
    assert_eq!(c.data.clicks, 0);
    assert_eq!(c.advertiser, A);

    let reg = RegisterAffiliate { signer: B, campaign: c.clone(), campaign_proof: at(0) };
    let link = register_affiliate(&mut store, &reg, b"promo-x".to_vec()).unwrap();
    assert_eq!(link.total_clicks, 0);
    assert!(!link.claimed);
    assert_eq!(link.affiliate_pubkey, B);
    let stored = decode_affiliate(&store.live_data(&affiliate_address(&TREE, &B, 1)).unwrap()).unwrap();
    assert_eq!(stored.unique_link, b"promo-x".to_vec());

    let (c1, l1) = record_click(&mut store, &clicks_request(&c, 0, &link, 1)).unwrap();
    let (c2, l2) = record_click(&mut store, &clicks_request(&c1, 2, &l1, 3)).unwrap();
    assert_eq!(l2.total_clicks, 2);
    assert_eq!(c2.data.clicks, 2);
    let live = decode_campaign(&store.live_data(&campaign_address(&TREE, &A, 1)).unwrap()).unwrap();
    assert_eq!(live.data.clicks, 2);

    let req = Claim { signer: B, campaign: c2.clone(), campaign_proof: at(4), affiliate: l2.clone(), affiliate_proof: at(5) };
    let (l3, pay) = claim(&mut store, &req).unwrap();
    assert!(l3.claimed);
    assert_eq!(pay, Transfer { from: Party::Vault(A), to: Party::Wallet(B), amount: CLAIM_AMOUNT });
    assert_eq!(CLAIM_AMOUNT, 100);
    let live_link = decode_affiliate(&store.live_data(&affiliate_address(&TREE, &B, 1)).unwrap()).unwrap();
    assert!(live_link.claimed);
    assert_eq!(live_link.total_clicks, 2);
}

#[test]
fn second_create_is_refused() {
    let mut store = LeafStore::new(TREE);
    assert!(create(&mut store, &Create { signer: A }, 7, data(5)).is_ok());
    assert_eq!(create(&mut store, &Create { signer: A }, 7, data(9)), Err(CustomError::UniquenessViolation));
    assert_eq!(store.len(), 1);
    assert!(create(&mut store, &Create { signer: A }, 8, data(5)).is_ok());
    assert!(create(&mut store, &Create { signer: B }, 7, data(5)).is_ok());
}

#[test]
fn second_registration_is_refused() {
    let mut store = LeafStore::new(TREE);
    create(&mut store, &Create { signer: A }, 1, data(10)).unwrap();
    let reg = RegisterAffiliate { signer: B, campaign: campaign(1, 10), campaign_proof: at(0) };
    register_affiliate(&mut store, &reg, b"one".to_vec()).unwrap();
    assert_eq!(register_affiliate(&mut store, &reg, b"two".to_vec()), Err(CustomError::UniquenessViolation));
}

#[test]
fn registration_needs_the_live_campaign() {
    let mut store = LeafStore::new(TREE);
    create(&mut store, &Create { signer: A }, 1, data(10)).unwrap();
    let wrong = RegisterAffiliate { signer: B, campaign: campaign(1, 11), campaign_proof: at(0) };
    assert_eq!(register_affiliate(&mut store, &wrong, b"x".to_vec()), Err(CustomError::StaleProof));
    let bad_index = RegisterAffiliate { signer: B, campaign: campaign(1, 10), campaign_proof: at(3) };
    assert_eq!(register_affiliate(&mut store, &bad_index, b"x".to_vec()), Err(CustomError::StaleProof));
    assert_eq!(store.len(), 1);
}

#[test]
fn oversized_link_is_refused() {
    let mut store = LeafStore::new(TREE);
    create(&mut store, &Create { signer: A }, 1, data(10)).unwrap();
    let reg = RegisterAffiliate { signer: B, campaign: campaign(1, 10), campaign_proof: at(0) };
    assert_eq!(register_affiliate(&mut store, &reg, vec![b'a'; 101]), Err(CustomError::OversizedField));
    assert!(register_affiliate(&mut store, &reg, vec![b'a'; 100]).is_ok());
}

#[test]
fn oversized_campaign_field_is_refused() {
    let mut store = LeafStore::new(TREE);
    let mut d = data(10);
    d.logo = vec![0u8; 101];
    assert_eq!(create(&mut store, &Create { signer: A }, 1, d), Err(CustomError::OversizedField));
    assert_eq!(store.len(), 0);
}

#[test]
fn clicks_count_calls() {
    let mut store = LeafStore::new(TREE);
    let mut d = data(10);
    d.clicks = 40;
    create(&mut store, &Create { signer: A }, 1, d.clone()).unwrap();
    let mut c = Campaign { campaign_id: 1, advertiser: A, data: d };
    let reg = RegisterAffiliate { signer: B, campaign: c.clone(), campaign_proof: at(0) };
    let mut a = register_affiliate(&mut store, &reg, b"l".to_vec()).unwrap();
    let (mut ci, mut ai) = (0u64, 1u64);
    for _ in 0..5 {
        let (nc, na) = record_click(&mut store, &clicks_request(&c, ci, &a, ai)).unwrap();
        c = nc;
        a = na;
        ci = store.len() as u64 - 2;
        ai = store.len() as u64 - 1;
    }
    assert_eq!(a.total_clicks, 5);
    assert_eq!(c.data.clicks, 45);
}

#[test]
fn stale_proof_is_rejected() {
    let mut store = LeafStore::new(TREE);
    create(&mut store, &Create { signer: A }, 1, data(10)).unwrap();
    let c0 = campaign(1, 10);
    let reg = RegisterAffiliate { signer: B, campaign: c0.clone(), campaign_proof: at(0) };
    let a0 = register_affiliate(&mut store, &reg, b"l".to_vec()).unwrap();
    let (c1, a1) = record_click(&mut store, &clicks_request(&c0, 0, &a0, 1)).unwrap();
    record_click(&mut store, &clicks_request(&c1, 2, &a1, 3)).unwrap();
    let before = store.len();
    assert_eq!(record_click(&mut store, &clicks_request(&c0, 0, &a0, 1)), Err(CustomError::StaleProof));
    assert_eq!(record_click(&mut store, &clicks_request(&c1, 2, &a1, 3)), Err(CustomError::StaleProof));
    assert_eq!(store.len(), before);
    assert!(store.is_nullified(0));
    assert!(store.is_nullified(2));
    assert!(!store.is_nullified(4));
}

#[test]
fn counter_at_maximum_overflows() {
    let mut store = LeafStore::new(TREE);
    let mut d = data(10);
    d.clicks = u64::MAX;
    create(&mut store, &Create { signer: A }, 1, d.clone()).unwrap();
    let c = Campaign { campaign_id: 1, advertiser: A, data: d };
    let reg = RegisterAffiliate { signer: B, campaign: c.clone(), campaign_proof: at(0) };
    let a = register_affiliate(&mut store, &reg, b"l".to_vec()).unwrap();
    assert_eq!(record_click(&mut store, &clicks_request(&c, 0, &a, 1)), Err(CustomError::Overflow));
    let mut full = a.clone();
    full.total_clicks = u64::MAX;
    let mut c2 = c.clone();
    c2.data.clicks = 0;
    assert_eq!(record_click(&mut store, &clicks_request(&c2, 0, &full, 1)), Err(CustomError::Overflow));
    assert_eq!(store.len(), 2);
}

#[test]
fn click_on_link_of_other_campaign_is_refused() {
    let mut store = LeafStore::new(TREE);
    let a = AffiliateLink { campaign_id: 2, affiliate_pubkey: B, unique_link: vec![], total_clicks: 0, claimed: false };
    assert_eq!(record_click(&mut store, &clicks_request(&campaign(1, 1), 0, &a, 1)), Err(CustomError::CampaignMismatch));
}

#[test]
fn claim_by_other_signer_is_unauthorized() {
    let mut store = LeafStore::new(TREE);
    create(&mut store, &Create { signer: A }, 1, data(10)).unwrap();
    let c = campaign(1, 10);
    let reg = RegisterAffiliate { signer: B, campaign: c.clone(), campaign_proof: at(0) };
    let a = register_affiliate(&mut store, &reg, b"l".to_vec()).unwrap();
    let req = Claim { signer: A, campaign: c, campaign_proof: at(0), affiliate: a, affiliate_proof: at(1) };
    assert_eq!(claim(&mut store, &req), Err(CustomError::Unauthorized));
    assert!(!store.is_nullified(1));
}

#[test]
fn register_v2_links_by_affiliate_alone() {
    let mut store = LeafStore::new(TREE);
    create(&mut store, &Create { signer: A }, 1, data(10)).unwrap();
    let req = RegisterAffiliateV2 { signer: B, campaign: campaign(1, 10), campaign_proof: at(0) };
    let a = register_v2(&mut store, &req, 1).unwrap();
    assert_eq!(a.campaign_id, 1);
    assert!(a.unique_link.is_empty());
    assert_eq!(register_v2(&mut store, &req, 1), Err(CustomError::UniquenessViolation));
}

#[test]
fn leaf_hash_is_sha256_of_image() {
    let mut store = LeafStore::new(TREE);
    store.create_leaf(&[5u8; 32], b"abc".to_vec()).unwrap();
    let expected: [u8; 32] = [
        186, 120, 22, 191, 143, 1, 207, 234, 65, 65, 64, 222, 93, 174, 34, 35, 176, 3, 97, 163,
        150, 23, 122, 156, 180, 16, 255, 97, 242, 0, 21, 173,
    ];
    assert_eq!(store.hash_at(0), expected);
    assert!(store.check_leaf(&[5u8; 32], 0, &b"abc".to_vec()));
    assert!(!store.check_leaf(&[5u8; 32], 0, &b"abd".to_vec()));
    assert!(!store.check_leaf(&[6u8; 32], 0, &b"abc".to_vec()));
}

#[test]
fn register_v2_ignores_campaign_id_argument() {
    let mut store = LeafStore::new(TREE);
    create(&mut store, &Create { signer: A }, 1, data(10)).unwrap();
    let req = RegisterAffiliateV2 { signer: B, campaign: campaign(1, 10), campaign_proof: at(0) };
    let a = register_v2(&mut store, &req, 99).unwrap();
    assert_eq!(a.campaign_id, 1);
    assert_eq!(a.affiliate_pubkey, B);
}

#[test]
fn transition_inputs_carry_hashes() {
    let created = creation_inputs(&[5u8; 32], b"abc".to_vec());
    assert_eq!(created.nullify, None);
    assert_eq!(created.output_hash[0], 186);
    let updated = update_inputs(&[5u8; 32], 3, &b"abc".to_vec(), b"abd".to_vec());
    let input = updated.nullify.unwrap();
    assert_eq!(input.leaf_index, 3);
    assert_eq!(input.hash, created.output_hash);
    assert_ne!(updated.output_hash, created.output_hash);
    assert_eq!(updated.output_data, b"abd".to_vec());
}

#[test]
fn clicked_records_keep_their_fields() {
    let mut store = LeafStore::new(TREE);
    create(&mut store, &Create { signer: A }, 1, data(70)).unwrap();
    let c = campaign(1, 70);
    let reg = RegisterAffiliate { signer: B, campaign: c.clone(), campaign_proof: at(0) };
    let a = register_affiliate(&mut store, &reg, b"keep".to_vec()).unwrap();
    let (nc, na) = record_click(&mut store, &clicks_request(&c, 0, &a, 1)).unwrap();
    assert_eq!(nc.data.budget, 70);
    assert_eq!(nc.data.name, b"spring".to_vec());
    assert_eq!(na.unique_link, b"keep".to_vec());
}
