use vstd::prelude::*;

verus! {

/// Largest byte length of a bounded string field.
pub const MAX_FIELD_LEN: usize = 100;

/// A public key, as its 32 bytes.
pub type Pubkey = [u8; 32];

/// The lifecycle stage of a campaign.
#[derive(Clone, Copy, Debug, PartialEq, Eq, Structural)]
pub enum CampaignStatus {
    Upcoming,
    Ongoing,
    Completed,
    Cancelled,
}

/// The tag byte of a status: its position in declaration order.
pub open spec fn status_tag(s: CampaignStatus) -> u8 {
    match s {
        CampaignStatus::Upcoming => 0,
        CampaignStatus::Ongoing => 1,
        CampaignStatus::Completed => 2,
        CampaignStatus::Cancelled => 3,
    }
}

impl CampaignStatus {
    /// The tag byte of this status.
    pub fn tag(&self) -> (r: u8)
        ensures
            r == status_tag(*self),
    {
        match self {
            CampaignStatus::Upcoming => 0,
            CampaignStatus::Ongoing => 1,
            CampaignStatus::Completed => 2,
            CampaignStatus::Cancelled => 3,
        }
    }

    /// The status whose tag byte is `b`, if any.
    pub fn from_tag(b: u8) -> (r: Option<CampaignStatus>)
        ensures
            match r {
                Some(s) => status_tag(s) == b,
                None => b > 3,
            },
    {
        if b == 0 {
            Some(CampaignStatus::Upcoming)
        } else if b == 1 {
            Some(CampaignStatus::Ongoing)
        } else if b == 2 {
            Some(CampaignStatus::Completed)
        } else if b == 3 {
            Some(CampaignStatus::Cancelled)
        } else {
            None
        }
    }

    /// The status as the hash inputs of a leaf: one input holding the tag byte.
    pub fn as_byte_vec(&self) -> (r: Vec<Vec<u8>>)
        ensures
            r@.len() == 1,
            r@[0]@ == seq![status_tag(*self)],
    {
        let mut inner: Vec<u8> = Vec::new();
        inner.push(self.tag());
        let mut r: Vec<Vec<u8>> = Vec::new();
        r.push(inner);
        r
    }
}

impl Default for CampaignStatus {
    fn default() -> (r: CampaignStatus)
        ensures
            r == CampaignStatus::Upcoming,
    {
        CampaignStatus::Upcoming
    }
}

/// What an advertiser states about a campaign. The three text fields hold
/// UTF-8 bytes.
#[derive(Clone, Debug, PartialEq, Eq)]
pub struct CampaignData {
    pub name: Vec<u8>,
    pub cta_link: Vec<u8>,
    pub logo: Vec<u8>,
    pub start_date: u64,
    pub end_date: u64,
    pub budget: u64,
    pub rate_per_click: u64,
    pub clicks: u64,
    pub remaining_budget: u64,
    pub status: CampaignStatus,
}

impl CampaignData {
    /// Every text field fits its bound.
    pub open spec fn bounded(&self) -> bool {
        &&& self.name@.len() <= MAX_FIELD_LEN
        &&& self.cta_link@.len() <= MAX_FIELD_LEN
        &&& self.logo@.len() <= MAX_FIELD_LEN
    }

    /// This data with the click counter replaced.
    pub open spec fn with_clicks(self, n: u64) -> CampaignData {
        CampaignData { clicks: n, ..self }
    }
}

/// A campaign record.
#[derive(Clone, Debug, PartialEq, Eq)]
pub struct Campaign {
    pub campaign_id: u64,
    pub advertiser: Pubkey,
    pub data: CampaignData,
}

/// The tracking link of one affiliate in one campaign.
#[derive(Clone, Debug, PartialEq, Eq)]
pub struct AffiliateLink {
    pub campaign_id: u64,
    pub affiliate_pubkey: Pubkey,
    pub unique_link: Vec<u8>,
    pub total_clicks: u64,
    pub claimed: bool,
}

/// Why an operation was refused. Every refusal leaves the state as it was.
#[derive(Clone, Copy, Debug, PartialEq, Eq, Structural)]
pub enum CustomError {
    /// The caller does not own the record.
    Unauthorized,
    /// A live leaf already stands at the address to be created.
    UniquenessViolation,
    /// The presented leaf is not the live leaf at its address.
    StaleProof,
    /// A counter or balance would leave its range.
    Overflow,
    /// A bounded string field is longer than its bound.
    OversizedField,
    /// The bytes are not the image of a record of the expected type.
    MalformedData,
    /// The two records belong to different campaigns.
    CampaignMismatch,
}

} // verus!
