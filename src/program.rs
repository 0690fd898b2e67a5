use vstd::prelude::*;
use crate::accounts::{AffiliateLink, Campaign, CampaignData, CustomError, Pubkey};
use crate::address::{
    address_of, affiliate_address, affiliate_only_address, affiliate_only_seeds, affiliate_seeds,
    campaign_address, campaign_seeds,
};
use crate::codec::{
    affiliate_bounded, affiliate_image, campaign_image, encode_affiliate, encode_campaign,
};
use crate::store::{keys_equal, lemma_live_kept_by_update, LeafView, accepts, fresh_leaf, has_live, sha256_of, superseded, LeafStore};

verus! {

/// The amount that one claim pays out of the advertiser's vault.
pub const CLAIM_AMOUNT: u64 = 100;

/// What a caller presents for a record it reads or replaces: the tree
/// position of the leaf it holds to be live.
#[derive(Clone, Copy, Debug)]
pub struct LightRootParams {
    pub leaf_index: u64,
}

/// One side of an escrow transfer.
#[derive(Clone, Copy, Debug, PartialEq, Eq)]
pub enum Party {
    /// The caller's own account.
    Wallet(Pubkey),
    /// The escrow vault of the advertiser with this key.
    Vault(Pubkey),
}

/// A balance transfer that the host performs in the same call; if it fails,
/// the whole call fails.
#[derive(Clone, Copy, Debug, PartialEq, Eq)]
pub struct Transfer {
    pub from: Party,
    pub to: Party,
    pub amount: u64,
}

/// The records a Create call touches: the advertiser who signs it.
#[derive(Clone, Copy, Debug)]
pub struct Create {
    pub signer: Pubkey,
}

/// The records a RegisterAffiliate call touches: the affiliate who signs it
/// and the live campaign it joins.
#[derive(Clone, Debug)]
pub struct RegisterAffiliate {
    pub signer: Pubkey,
    pub campaign: Campaign,
    pub campaign_proof: LightRootParams,
}

/// The records of the simpler registration, whose link address depends on
/// the affiliate alone.
#[derive(Clone, Debug)]
pub struct RegisterAffiliateV2 {
    pub signer: Pubkey,
    pub campaign: Campaign,
    pub campaign_proof: LightRootParams,
}

/// The records a RecordClick call replaces: a campaign and one of its links.
#[derive(Clone, Debug)]
pub struct RecordClick {
    pub campaign: Campaign,
    pub campaign_proof: LightRootParams,
    pub affiliate: AffiliateLink,
    pub affiliate_proof: LightRootParams,
}

/// The records a Claim call touches: the affiliate who signs it, the live
/// campaign that pays, and the link that is marked claimed.
#[derive(Clone, Debug)]
pub struct Claim {
    pub signer: Pubkey,
    pub campaign: Campaign,
    pub campaign_proof: LightRootParams,
    pub affiliate: AffiliateLink,
    pub affiliate_proof: LightRootParams,
}

/// The address of a campaign record.
pub open spec fn campaign_addr(tree: Seq<u8>, c: Campaign) -> Seq<u8> {
    address_of(tree, campaign_seeds(c.advertiser@, c.campaign_id))
}

/// The address of an affiliate-link record.
pub open spec fn affiliate_addr(tree: Seq<u8>, a: AffiliateLink) -> Seq<u8> {
    address_of(tree, affiliate_seeds(a.affiliate_pubkey@, a.campaign_id))
}

/// The leaf at `p` is the live campaign `c`.
pub open spec fn campaign_live(s: LeafStore, c: Campaign, p: LightRootParams) -> bool {
    accepts(s.view(), campaign_addr(s.tree_key(), c), p.leaf_index as int, sha256_of(campaign_image(c)))
}

/// The leaf at `p` is the live affiliate link `a`.
pub open spec fn affiliate_live(s: LeafStore, a: AffiliateLink, p: LightRootParams) -> bool {
    accepts(s.view(), affiliate_addr(s.tree_key(), a), p.leaf_index as int, sha256_of(affiliate_image(a)))
}

/// Same campaign, one more click.
pub open spec fn campaign_clicked(c: Campaign, r: Campaign) -> bool {
    &&& campaign_image(r) == campaign_image(Campaign { data: c.data.with_clicks((c.data.clicks + 1) as u64), ..c })
    &&& r.campaign_id == c.campaign_id
    &&& r.advertiser == c.advertiser
    &&& r.data.name@ == c.data.name@
    &&& r.data.cta_link@ == c.data.cta_link@
    &&& r.data.logo@ == c.data.logo@
    &&& r.data.start_date == c.data.start_date
    &&& r.data.end_date == c.data.end_date
    &&& r.data.budget == c.data.budget
    &&& r.data.rate_per_click == c.data.rate_per_click
    &&& r.data.clicks == c.data.clicks + 1
    &&& r.data.remaining_budget == c.data.remaining_budget
    &&& r.data.status == c.data.status
}

/// Same link, one more click.
pub open spec fn link_clicked(a: AffiliateLink, r: AffiliateLink) -> bool {
    &&& affiliate_image(r) == affiliate_image(AffiliateLink { total_clicks: (a.total_clicks + 1) as u64, ..a })
    &&& r.campaign_id == a.campaign_id
    &&& r.affiliate_pubkey == a.affiliate_pubkey
    &&& r.unique_link@ == a.unique_link@
    &&& r.total_clicks == a.total_clicks + 1
    &&& r.claimed == a.claimed
}

/// Same link, marked claimed.
pub open spec fn link_claimed(a: AffiliateLink, r: AffiliateLink) -> bool {
    &&& affiliate_image(r) == affiliate_image(AffiliateLink { claimed: true, ..a })
    &&& r.campaign_id == a.campaign_id
    &&& r.affiliate_pubkey == a.affiliate_pubkey
    &&& r.unique_link@ == a.unique_link@
    &&& r.total_clicks == a.total_clicks
    &&& r.claimed
}

fn copy_bytes(v: &Vec<u8>) -> (r: Vec<u8>)
    ensures
        r@ == v@,
{
    let r = v.clone();
    assert(r@ =~= v@);
    r
}

fn copy_data(d: &CampaignData, clicks: u64) -> (r: CampaignData)
    ensures
        r.name@ == d.name@,
        r.cta_link@ == d.cta_link@,
        r.logo@ == d.logo@,
        r.start_date == d.start_date,
        r.end_date == d.end_date,
        r.budget == d.budget,
        r.rate_per_click == d.rate_per_click,
        r.clicks == clicks,
        r.remaining_budget == d.remaining_budget,
        r.status == d.status,
{
    CampaignData {
        name: copy_bytes(&d.name),
        cta_link: copy_bytes(&d.cta_link),
        logo: copy_bytes(&d.logo),
        start_date: d.start_date,
        end_date: d.end_date,
        budget: d.budget,
        rate_per_click: d.rate_per_click,
        clicks,
        remaining_budget: d.remaining_budget,
        status: d.status,
    }
}

/// Opens campaign `campaign_id` for the signing advertiser with `data`, and
/// asks for `data.budget` to move from the advertiser into their vault.
/// Refused when a text field is over its bound, or when the advertiser
/// already has a live campaign under this id.
pub fn create(store: &mut LeafStore, accounts: &Create, campaign_id: u64, data: CampaignData) -> (r: Result<Transfer, CustomError>)
    requires
        old(store).wf(),
    ensures
        final(store).wf(),
        final(store).tree_key() == old(store).tree_key(),
        r is Err <==> !data.bounded() || has_live(old(store).view(), address_of(old(store).tree_key(), campaign_seeds(accounts.signer@, campaign_id))),
        r matches Err(e) ==> final(store).view() == old(store).view() && e == if !data.bounded() {
            CustomError::OversizedField
        } else {
            CustomError::UniquenessViolation
        },
        r matches Ok(t) ==> t == (Transfer {
            from: Party::Wallet(accounts.signer),
            to: Party::Vault(accounts.signer),
            amount: data.budget,
        }) && final(store).view() == old(store).view().push(fresh_leaf(
            address_of(old(store).tree_key(), campaign_seeds(accounts.signer@, campaign_id)),
            campaign_image(Campaign { campaign_id, advertiser: accounts.signer, data }),
        )),
{
    let budget = data.budget;
    let campaign = Campaign { campaign_id, advertiser: accounts.signer, data };
    let image = match encode_campaign(&campaign) {
        Ok(b) => b,
        Err(e) => return Err(e),
    };
    let tree = store.address_tree();
    let address = campaign_address(&tree, &accounts.signer, campaign_id);
    match store.create_leaf(&address, image) {
        Ok(_) => {},
        Err(e) => return Err(e),
    }
    Ok(Transfer { from: Party::Wallet(accounts.signer), to: Party::Vault(accounts.signer), amount: budget })
}

/// The link that `signer` registers in campaign `c` under `link`.
pub open spec fn new_link(c: Campaign, signer: Pubkey, link: Vec<u8>) -> AffiliateLink {
    AffiliateLink { campaign_id: c.campaign_id, affiliate_pubkey: signer, unique_link: link, total_clicks: 0, claimed: false }
}

/// Registers the signing affiliate in the live campaign of `accounts`, with
/// tracking link `unique_link`; returns the new link record. Refused when a
/// text field is over its bound, when the campaign presented is not the live
/// one, or when the affiliate already has a live link in this campaign.
pub fn register_affiliate(store: &mut LeafStore, accounts: &RegisterAffiliate, unique_link: Vec<u8>) -> (r: Result<AffiliateLink, CustomError>)
    requires
        old(store).wf(),
    ensures
        final(store).wf(),
        final(store).tree_key() == old(store).tree_key(),
        ({
            let s = *old(store);
            let c = accounts.campaign;
            let link = new_link(c, accounts.signer, unique_link);
            let address = affiliate_addr(s.tree_key(), link);
            let oversized = !c.data.bounded() || !affiliate_bounded(link);
            let stale = !campaign_live(s, c, accounts.campaign_proof);
            let taken = has_live(s.view(), address);
            &&& r is Err <==> oversized || stale || taken
            &&& r matches Err(e) ==> final(store).view() == s.view() && e == if oversized {
                CustomError::OversizedField
            } else if stale {
                CustomError::StaleProof
            } else {
                CustomError::UniquenessViolation
            }
            &&& r matches Ok(a) ==> a == link
                && final(store).view() == s.view().push(fresh_leaf(address, affiliate_image(link)))
        }),
{
    let link = AffiliateLink {
        campaign_id: accounts.campaign.campaign_id,
        affiliate_pubkey: accounts.signer,
        unique_link,
        total_clicks: 0,
        claimed: false,
    };
    let campaign_image = match encode_campaign(&accounts.campaign) {
        Ok(b) => b,
        Err(e) => return Err(e),
    };
    let link_image = match encode_affiliate(&link) {
        Ok(b) => b,
        Err(e) => return Err(e),
    };
    let tree = store.address_tree();
    let campaign_address = campaign_address(&tree, &accounts.campaign.advertiser, accounts.campaign.campaign_id);
    if !store.check_leaf(&campaign_address, accounts.campaign_proof.leaf_index, &campaign_image) {
        return Err(CustomError::StaleProof);
    }
    let address = affiliate_address(&tree, &accounts.signer, link.campaign_id);
    match store.create_leaf(&address, link_image) {
        Ok(_) => {},
        Err(e) => return Err(e),
    }
    Ok(link)
}

/// The simpler registration. The link address is derived from the signing
/// affiliate's key alone (seeds "affiliate" and the key, no campaign key), so
/// an affiliate holds at most one such link across all campaigns. The new
/// link records the presented live campaign's id, the signer as its owner,
/// an empty tracking text, no clicks, and is unclaimed. The `_campaign_id`
/// argument is part of the instruction's interface and is not read. Returns
/// the new link record.
pub fn register_v2(store: &mut LeafStore, accounts: &RegisterAffiliateV2, _campaign_id: u64) -> (r: Result<AffiliateLink, CustomError>)
    requires
        old(store).wf(),
    ensures
        final(store).wf(),
        final(store).tree_key() == old(store).tree_key(),
        ({
            let s = *old(store);
            let c = accounts.campaign;
            let address = address_of(s.tree_key(), affiliate_only_seeds(accounts.signer@));
            let oversized = !c.data.bounded();
            let stale = !campaign_live(s, c, accounts.campaign_proof);
            let taken = has_live(s.view(), address);
            &&& r is Err <==> oversized || stale || taken
            &&& r matches Err(e) ==> final(store).view() == s.view() && e == if oversized {
                CustomError::OversizedField
            } else if stale {
                CustomError::StaleProof
            } else {
                CustomError::UniquenessViolation
            }
            &&& r matches Ok(a) ==> a.campaign_id == c.campaign_id && a.affiliate_pubkey == accounts.signer
                && a.unique_link@.len() == 0 && a.total_clicks == 0 && !a.claimed
                && final(store).view() == s.view().push(fresh_leaf(address, affiliate_image(a)))
        }),
{
    let campaign_id = accounts.campaign.campaign_id;
    let campaign_image = match encode_campaign(&accounts.campaign) {
        Ok(b) => b,
        Err(e) => return Err(e),
    };
    let tree = store.address_tree();
    let campaign_address = campaign_address(&tree, &accounts.campaign.advertiser, campaign_id);
    if !store.check_leaf(&campaign_address, accounts.campaign_proof.leaf_index, &campaign_image) {
        return Err(CustomError::StaleProof);
    }
    let link = AffiliateLink {
        campaign_id,
        affiliate_pubkey: accounts.signer,
        unique_link: Vec::new(),
        total_clicks: 0,
        claimed: false,
    };
    let link_image = match encode_affiliate(&link) {
        Ok(b) => b,
        Err(e) => return Err(e),
    };
    let address = affiliate_only_address(&tree, &accounts.signer);
    match store.create_leaf(&address, link_image) {
        Ok(_) => {},
        Err(e) => return Err(e),
    }
    Ok(link)
}

fn copy_link(a: &AffiliateLink, total_clicks: u64, claimed: bool) -> (r: AffiliateLink)
    ensures
        r.campaign_id == a.campaign_id,
        r.affiliate_pubkey == a.affiliate_pubkey,
        r.unique_link@ == a.unique_link@,
        r.total_clicks == total_clicks,
        r.claimed == claimed,
{
    AffiliateLink {
        campaign_id: a.campaign_id,
        affiliate_pubkey: a.affiliate_pubkey,
        unique_link: copy_bytes(&a.unique_link),
        total_clicks,
        claimed,
    }
}

/// Records one click on the link of `accounts` and on its campaign together:
/// both live leaves are replaced by leaves whose counters are one higher.
/// Returns the new campaign and link records. Refused, with nothing changed,
/// when the link is not of that campaign, when either counter is at its
/// largest value, when a text field is over its bound, or when either record
/// presented is not the live one.
pub fn record_click(store: &mut LeafStore, accounts: &RecordClick) -> (r: Result<(Campaign, AffiliateLink), CustomError>)
    requires
        old(store).wf(),
    ensures
        final(store).wf(),
        final(store).tree_key() == old(store).tree_key(),
        ({
            let s = *old(store);
            let c = accounts.campaign;
            let a = accounts.affiliate;
            let cp = accounts.campaign_proof;
            let ap = accounts.affiliate_proof;
            let mismatch = a.campaign_id != c.campaign_id;
            let overflow = a.total_clicks == u64::MAX || c.data.clicks == u64::MAX;
            let oversized = !c.data.bounded() || !affiliate_bounded(a);
            let stale = !campaign_live(s, c, cp) || !affiliate_live(s, a, ap) || cp.leaf_index == ap.leaf_index;
            &&& r is Err <==> mismatch || overflow || oversized || stale
            &&& r matches Err(e) ==> final(store).view() == s.view() && e == if mismatch {
                CustomError::CampaignMismatch
            } else if overflow {
                CustomError::Overflow
            } else if oversized {
                CustomError::OversizedField
            } else {
                CustomError::StaleProof
            }
            &&& r matches Ok((nc, na)) ==> campaign_clicked(c, nc) && link_clicked(a, na)
                && final(store).view() == superseded(
                    superseded(s.view(), cp.leaf_index as int, fresh_leaf(campaign_addr(s.tree_key(), c), campaign_image(nc))),
                    ap.leaf_index as int,
                    fresh_leaf(affiliate_addr(s.tree_key(), a), affiliate_image(na)),
                )
        }),
{
    let c = &accounts.campaign;
    let a = &accounts.affiliate;
    if a.campaign_id != c.campaign_id {
        return Err(CustomError::CampaignMismatch);
    }
    let total_clicks = match a.total_clicks.checked_add(1) {
        Some(n) => n,
        None => return Err(CustomError::Overflow),
    };
    let clicks = match c.data.clicks.checked_add(1) {
        Some(n) => n,
        None => return Err(CustomError::Overflow),
    };
    let old_campaign = match encode_campaign(c) {
        Ok(b) => b,
        Err(e) => return Err(e),
    };
    let old_link = match encode_affiliate(a) {
        Ok(b) => b,
        Err(e) => return Err(e),
    };
    let nc = Campaign { campaign_id: c.campaign_id, advertiser: c.advertiser, data: copy_data(&c.data, clicks) };
    let na = copy_link(a, total_clicks, a.claimed);
    let new_campaign = match encode_campaign(&nc) {
        Ok(b) => b,
        Err(e) => return Err(e),
    };
    let new_link = match encode_affiliate(&na) {
        Ok(b) => b,
        Err(e) => return Err(e),
    };
    proof {
        assert(campaign_image(nc) =~= campaign_image(Campaign { data: c.data.with_clicks(clicks), ..*c }));
        assert(affiliate_image(na) =~= affiliate_image(AffiliateLink { total_clicks, ..*a }));
    }
    let tree = store.address_tree();
    let ca = campaign_address(&tree, &c.advertiser, c.campaign_id);
    let aa = affiliate_address(&tree, &a.affiliate_pubkey, a.campaign_id);
    let ci = accounts.campaign_proof.leaf_index;
    let ai = accounts.affiliate_proof.leaf_index;
    if ci == ai || !store.check_leaf(&ca, ci, &old_campaign) || !store.check_leaf(&aa, ai, &old_link) {
        return Err(CustomError::StaleProof);
    }
    match store.update_leaf(&ca, ci, &old_campaign, new_campaign) {
        Ok(_) => {},
        Err(e) => return Err(e),
    }
    assert(accepts(store.view(), aa@, ai as int, sha256_of(old_link@)));
    match store.update_leaf(&aa, ai, &old_link, new_link) {
        Ok(_) => {},
        Err(e) => return Err(e),
    }
    Ok((nc, na))
}

/// Marks the signing affiliate's link claimed and asks for the fixed claim
/// amount to move from the campaign advertiser's vault to the affiliate.
/// The campaign is read, not replaced. Returns the new link record and the
/// transfer. Refused, with nothing changed, when the signer does not own the
/// link, when the link is not of that campaign, when a text field is over
/// its bound, or when either record presented is not the live one.
pub fn claim(store: &mut LeafStore, accounts: &Claim) -> (r: Result<(AffiliateLink, Transfer), CustomError>)
    requires
        old(store).wf(),
    ensures
        final(store).wf(),
        final(store).tree_key() == old(store).tree_key(),
        ({
            let s = *old(store);
            let c = accounts.campaign;
            let a = accounts.affiliate;
            let cp = accounts.campaign_proof;
            let ap = accounts.affiliate_proof;
            let unauthorized = accounts.signer@ != a.affiliate_pubkey@;
            let mismatch = a.campaign_id != c.campaign_id;
            let oversized = !c.data.bounded() || !affiliate_bounded(a);
            let stale = !campaign_live(s, c, cp) || !affiliate_live(s, a, ap);
            &&& r is Err <==> unauthorized || mismatch || oversized || stale
            &&& r matches Err(e) ==> final(store).view() == s.view() && e == if unauthorized {
                CustomError::Unauthorized
            } else if mismatch {
                CustomError::CampaignMismatch
            } else if oversized {
                CustomError::OversizedField
            } else {
                CustomError::StaleProof
            }
            &&& r matches Ok((na, t)) ==> link_claimed(a, na)
                && t == (Transfer { from: Party::Vault(c.advertiser), to: Party::Wallet(accounts.signer), amount: CLAIM_AMOUNT })
                && final(store).view() == superseded(
                    s.view(),
                    ap.leaf_index as int,
                    fresh_leaf(affiliate_addr(s.tree_key(), a), affiliate_image(na)),
                )
        }),
{
    let c = &accounts.campaign;
    let a = &accounts.affiliate;
    let same = keys_equal(&accounts.signer, &a.affiliate_pubkey);
    if !same {
        return Err(CustomError::Unauthorized);
    }
    if a.campaign_id != c.campaign_id {
        return Err(CustomError::CampaignMismatch);
    }
    let campaign_image = match encode_campaign(c) {
        Ok(b) => b,
        Err(e) => return Err(e),
    };
    let old_link = match encode_affiliate(a) {
        Ok(b) => b,
        Err(e) => return Err(e),
    };
    let na = copy_link(a, a.total_clicks, true);
    let new_link = match encode_affiliate(&na) {
        Ok(b) => b,
        Err(e) => return Err(e),
    };
    proof {
        assert(affiliate_image(na) =~= affiliate_image(AffiliateLink { claimed: true, ..*a }));
    }
    let tree = store.address_tree();
    let ca = campaign_address(&tree, &c.advertiser, c.campaign_id);
    let aa = affiliate_address(&tree, &a.affiliate_pubkey, a.campaign_id);
    if !store.check_leaf(&ca, accounts.campaign_proof.leaf_index, &campaign_image) {
        return Err(CustomError::StaleProof);
    }
    match store.update_leaf(&aa, accounts.affiliate_proof.leaf_index, &old_link, new_link) {
        Ok(_) => {},
        Err(e) => return Err(e),
    }
    Ok((na, Transfer { from: Party::Vault(c.advertiser), to: Party::Wallet(accounts.signer), amount: CLAIM_AMOUNT }))
}

/// After a successful Create, the campaign address of that advertiser and id
/// holds a live leaf, so a second Create for the same pair is refused with
/// a uniqueness violation; replacing leaves in between keeps it so.
pub proof fn lemma_second_create_refused(
    s0: Seq<LeafView>,
    tree: Seq<u8>,
    signer: Pubkey,
    campaign_id: u64,
    data: CampaignData,
)
    ensures
        ({
            let address = address_of(tree, campaign_seeds(signer@, campaign_id));
            let s1 = s0.push(fresh_leaf(address, campaign_image(Campaign { campaign_id, advertiser: signer, data })));
            &&& has_live(s1, address)
            &&& forall|i: int, d: Seq<u8>| 0 <= i < s1.len() && !s1[i].nullified
                ==> has_live(#[trigger] superseded(s1, i, fresh_leaf(s1[i].address, d)), address)
        }),
{
    let address = address_of(tree, campaign_seeds(signer@, campaign_id));
    let s1 = s0.push(fresh_leaf(address, campaign_image(Campaign { campaign_id, advertiser: signer, data })));
    assert(!s1[s0.len() as int].nullified && s1[s0.len() as int].address == address);
    assert forall|i: int, d: Seq<u8>| 0 <= i < s1.len() && !s1[i].nullified
        implies has_live(#[trigger] superseded(s1, i, fresh_leaf(s1[i].address, d)), address) by {
        lemma_live_kept_by_update(s1, i, d, address);
    }
}

/// After a successful RegisterAffiliate, the link address of that affiliate
/// and campaign holds a live leaf, so a second registration of the pair is
/// refused with a uniqueness violation; replacing leaves in between keeps it
/// so.
pub proof fn lemma_second_registration_refused(s0: Seq<LeafView>, tree: Seq<u8>, link: AffiliateLink)
    ensures
        ({
            let address = affiliate_addr(tree, link);
            let s1 = s0.push(fresh_leaf(address, affiliate_image(link)));
            &&& has_live(s1, address)
            &&& forall|i: int, d: Seq<u8>| 0 <= i < s1.len() && !s1[i].nullified
                ==> has_live(#[trigger] superseded(s1, i, fresh_leaf(s1[i].address, d)), address)
        }),
{
    let address = affiliate_addr(tree, link);
    let s1 = s0.push(fresh_leaf(address, affiliate_image(link)));
    assert(!s1[s0.len() as int].nullified && s1[s0.len() as int].address == address);
    assert forall|i: int, d: Seq<u8>| 0 <= i < s1.len() && !s1[i].nullified
        implies has_live(#[trigger] superseded(s1, i, fresh_leaf(s1[i].address, d)), address) by {
        lemma_live_kept_by_update(s1, i, d, address);
    }
}

/// Counting clicks: along a chain of successful RecordClick calls, each
/// presenting the records the previous one returned and starting from a
/// newly registered link, the link's counter equals the number of calls and
/// the campaign's counter has grown by exactly that number.
pub proof fn lemma_click_count(campaigns: Seq<Campaign>, links: Seq<AffiliateLink>)
    requires
        campaigns.len() == links.len(),
        links.len() >= 1,
        links[0].total_clicks == 0,
        forall|k: int| 0 <= k < links.len() - 1 ==> campaign_clicked(#[trigger] campaigns[k], campaigns[k + 1])
            && link_clicked(links[k], links[k + 1]),
    ensures
        links.last().total_clicks == links.len() - 1,
        campaigns.last().data.clicks == campaigns[0].data.clicks + links.len() - 1,
    decreases links.len(),
{
    if links.len() > 1 {
        let n = (links.len() - 1) as int;
        lemma_click_count(campaigns.drop_last(), links.drop_last());
        assert(campaign_clicked(campaigns[n - 1], campaigns[n]));
        assert(campaigns.drop_last().last() == campaigns[n - 1]);
        assert(links.drop_last().last() == links[n - 1]);
    }
}

/// A RecordClick or Claim that presents a superseded link leaf is refused:
/// a nullified position is never the live link, so the stale condition of
/// both calls holds and neither can succeed.
pub proof fn lemma_superseded_link_refused(s: LeafStore, a: AffiliateLink, p: LightRootParams)
    requires
        p.leaf_index < s.view().len(),
        s.view()[p.leaf_index as int].nullified,
    ensures
        !affiliate_live(s, a, p),
{
}

} // verus!
