//! An affiliate-marketing campaign ledger whose records are compressed
//! accounts: leaf images committed under derived addresses and replaced only
//! through a nullify-then-insert transition that presents the current leaf.

pub mod accounts;
pub mod codec;
pub mod address;
pub mod store;
pub mod program;

pub use accounts::{AffiliateLink, Campaign, CampaignData, CampaignStatus, CustomError, Pubkey};
pub use program::{
    claim, create, record_click, register_affiliate, register_v2, Claim, Create, LightRootParams,
    Party, RecordClick, RegisterAffiliate, RegisterAffiliateV2, Transfer, CLAIM_AMOUNT,
};
pub use store::LeafStore;
