use vstd::prelude::*;
use vstd::bytes::{
    spec_u32_to_le_bytes, spec_u64_to_le_bytes,
    u32_from_le_bytes, u32_to_le_bytes, u64_from_le_bytes, u64_to_le_bytes,
    lemma_auto_spec_u32_to_from_le_bytes, lemma_auto_spec_u64_to_from_le_bytes,
};
use vstd::slice::slice_subrange;
use crate::accounts::{
    AffiliateLink, Campaign, CampaignData, CampaignStatus, CustomError, Pubkey, MAX_FIELD_LEN,
    status_tag,
};

verus! {

/// The eight bytes that open the image of a campaign leaf.
pub open spec fn campaign_discriminator() -> Seq<u8> {
    seq![50u8, 40u8, 49u8, 11u8, 157u8, 220u8, 229u8, 192u8]
}

/// The eight bytes that open the image of an affiliate-link leaf.
pub open spec fn affiliate_discriminator() -> Seq<u8> {
    seq![78u8, 8u8, 126u8, 239u8, 179u8, 52u8, 55u8, 238u8]
}

/// A bounded string: its length as four little-endian bytes, then its bytes.
pub open spec fn str_image(s: Seq<u8>) -> Seq<u8> {
    spec_u32_to_le_bytes(s.len() as u32) + s
}

/// The image of campaign data: the fields in declaration order, integers
/// little-endian, the status as its tag byte.
pub open spec fn data_image(d: CampaignData) -> Seq<u8> {
    str_image(d.name@) + str_image(d.cta_link@) + str_image(d.logo@)
        + spec_u64_to_le_bytes(d.start_date) + spec_u64_to_le_bytes(d.end_date)
        + spec_u64_to_le_bytes(d.budget) + spec_u64_to_le_bytes(d.rate_per_click)
        + spec_u64_to_le_bytes(d.clicks) + spec_u64_to_le_bytes(d.remaining_budget)
        + seq![status_tag(d.status)]
}

/// The leaf image of a campaign.
pub open spec fn campaign_image(c: Campaign) -> Seq<u8> {
    campaign_discriminator() + spec_u64_to_le_bytes(c.campaign_id) + c.advertiser@
        + data_image(c.data)
}

/// The leaf image of an affiliate link.
pub open spec fn affiliate_image(a: AffiliateLink) -> Seq<u8> {
    affiliate_discriminator() + spec_u64_to_le_bytes(a.campaign_id) + a.affiliate_pubkey@
        + str_image(a.unique_link@) + spec_u64_to_le_bytes(a.total_clicks)
        + seq![if a.claimed { 1u8 } else { 0u8 }]
}

/// An affiliate link whose text field fits its bound.
pub open spec fn affiliate_bounded(a: AffiliateLink) -> bool {
    a.unique_link@.len() <= MAX_FIELD_LEN
}

fn push_bytes(out: &mut Vec<u8>, src: &[u8])
    ensures
        final(out)@ == old(out)@ + src@,
{
    let mut i: usize = 0;
    while i < src.len()
        invariant
            i <= src@.len(),
            out@ == old(out)@ + src@.subrange(0, i as int),
        decreases src@.len() - i,
    {
        out.push(src[i]);
        i = i + 1;
        assert(src@.subrange(0, i as int) =~= src@.subrange(0, i - 1) + seq![src@[i - 1]]);
    }
    assert(src@.subrange(0, i as int) =~= src@);
}

fn push_discriminator(out: &mut Vec<u8>, campaign: bool)
    ensures
        final(out)@ == old(out)@ + if campaign {
            campaign_discriminator()
        } else {
            affiliate_discriminator()
        },
{
    let d: [u8; 8] = if campaign {
        [50, 40, 49, 11, 157, 220, 229, 192]
    } else {
        [78, 8, 126, 239, 179, 52, 55, 238]
    };
    push_bytes(out, &d);
    assert(d@ =~= if campaign {
        campaign_discriminator()
    } else {
        affiliate_discriminator()
    });
}

fn push_u64(out: &mut Vec<u8>, x: u64)
    ensures
        final(out)@ == old(out)@ + spec_u64_to_le_bytes(x),
{
    let b = u64_to_le_bytes(x);
    push_bytes(out, b.as_slice());
}

fn push_str(out: &mut Vec<u8>, s: &Vec<u8>) -> (r: Result<(), CustomError>)
    ensures
        r is Ok <==> s@.len() <= MAX_FIELD_LEN,
        r is Ok ==> final(out)@ == old(out)@ + str_image(s@),
        r is Err ==> r == Err::<(), CustomError>(CustomError::OversizedField) && final(out)@ == old(out)@,
{
    if s.len() > MAX_FIELD_LEN {
        return Err(CustomError::OversizedField);
    }
    let n = u32_to_le_bytes(s.len() as u32);
    push_bytes(out, n.as_slice());
    push_bytes(out, s.as_slice());
    assert(final(out)@ =~= old(out)@ + str_image(s@)) by {
        assert(out@ =~= old(out)@ + str_image(s@));
    }
    Ok(())
}

fn push_key(out: &mut Vec<u8>, k: &Pubkey)
    ensures
        final(out)@ == old(out)@ + k@,
{
    push_bytes(out, k);
}

/// The leaf image of a campaign; refused when a text field is over its bound.
pub fn encode_campaign(c: &Campaign) -> (r: Result<Vec<u8>, CustomError>)
    ensures
        match r {
            Ok(b) => c.data.bounded() && b@ == campaign_image(*c),
            Err(e) => !c.data.bounded() && e == CustomError::OversizedField,
        },
{
    let mut out: Vec<u8> = Vec::new();
    push_discriminator(&mut out, true);
    push_u64(&mut out, c.campaign_id);
    push_key(&mut out, &c.advertiser);
    let r1 = push_str(&mut out, &c.data.name);
    if r1.is_err() {
        return Err(CustomError::OversizedField);
    }
    let r2 = push_str(&mut out, &c.data.cta_link);
    if r2.is_err() {
        return Err(CustomError::OversizedField);
    }
    let r3 = push_str(&mut out, &c.data.logo);
    if r3.is_err() {
        return Err(CustomError::OversizedField);
    }
    push_u64(&mut out, c.data.start_date);
    push_u64(&mut out, c.data.end_date);
    push_u64(&mut out, c.data.budget);
    push_u64(&mut out, c.data.rate_per_click);
    push_u64(&mut out, c.data.clicks);
    push_u64(&mut out, c.data.remaining_budget);
    out.push(c.data.status.tag());
    assert(out@ =~= campaign_image(*c));
    Ok(out)
}

/// The leaf image of an affiliate link; refused when the link is over its
/// bound.
pub fn encode_affiliate(a: &AffiliateLink) -> (r: Result<Vec<u8>, CustomError>)
    ensures
        match r {
            Ok(b) => affiliate_bounded(*a) && b@ == affiliate_image(*a),
            Err(e) => !affiliate_bounded(*a) && e == CustomError::OversizedField,
        },
{
    let mut out: Vec<u8> = Vec::new();
    push_discriminator(&mut out, false);
    push_u64(&mut out, a.campaign_id);
    push_key(&mut out, &a.affiliate_pubkey);
    let r1 = push_str(&mut out, &a.unique_link);
    if r1.is_err() {
        return Err(CustomError::OversizedField);
    }
    push_u64(&mut out, a.total_clicks);
    out.push(if a.claimed { 1u8 } else { 0u8 });
    assert(out@ =~= affiliate_image(*a));
    Ok(out)
}

proof fn lemma_str_unique(b: Seq<u8>, pos: int, v: Seq<u8>, w: Seq<u8>)
    requires
        0 <= pos,
        v.len() <= MAX_FIELD_LEN,
        w.len() <= MAX_FIELD_LEN,
        pos + 4 + v.len() <= b.len(),
        pos + 4 + w.len() <= b.len(),
        b.subrange(pos, pos + 4 + v.len()) == str_image(v),
        b.subrange(pos, pos + 4 + w.len()) == str_image(w),
    ensures
        v == w,
{
    lemma_auto_spec_u32_to_from_le_bytes();
    assert(b.subrange(pos, pos + 4) =~= str_image(v).subrange(0, 4));
    assert(b.subrange(pos, pos + 4) =~= str_image(w).subrange(0, 4));
    assert(str_image(v).subrange(0, 4) =~= spec_u32_to_le_bytes(v.len() as u32));
    assert(str_image(w).subrange(0, 4) =~= spec_u32_to_le_bytes(w.len() as u32));
    assert(v.len() == w.len());
    assert(v =~= str_image(v).subrange(4, 4 + v.len() as int));
    assert(w =~= str_image(w).subrange(4, 4 + w.len() as int));
    assert(v =~= b.subrange(pos + 4, pos + 4 + v.len()));
    assert(w =~= b.subrange(pos + 4, pos + 4 + w.len()));
}

proof fn lemma_affiliate_layout(a: AffiliateLink)
    ensures
        ({
            let b = affiliate_image(a);
            let n = a.unique_link@.len() as int;
            &&& b.len() == 61 + n
            &&& b.subrange(0, 8) == affiliate_discriminator()
            &&& b.subrange(8, 16) == spec_u64_to_le_bytes(a.campaign_id)
            &&& b.subrange(16, 48) == a.affiliate_pubkey@
            &&& b.subrange(48, 52 + n) == str_image(a.unique_link@)
            &&& b.subrange(52 + n, 60 + n) == spec_u64_to_le_bytes(a.total_clicks)
            &&& b[60 + n] == if a.claimed { 1u8 } else { 0u8 }
        }),
{
    lemma_auto_spec_u64_to_from_le_bytes();
    lemma_auto_spec_u32_to_from_le_bytes();
    let b = affiliate_image(a);
    let n = a.unique_link@.len() as int;
    assert(b.subrange(0, 8) =~= affiliate_discriminator());
    assert(b.subrange(8, 16) =~= spec_u64_to_le_bytes(a.campaign_id));
    assert(b.subrange(16, 48) =~= a.affiliate_pubkey@);
    assert(b.subrange(48, 52 + n) =~= str_image(a.unique_link@));
    assert(b.subrange(52 + n, 60 + n) =~= spec_u64_to_le_bytes(a.total_clicks));
}

proof fn lemma_data_layout(d: CampaignData)
    ensures
        ({
            let b = data_image(d);
            let n1 = d.name@.len() as int;
            let n2 = d.cta_link@.len() as int;
            let n3 = d.logo@.len() as int;
            let q = 12 + n1 + n2 + n3;
            &&& b.len() == q + 49
            &&& b.subrange(0, 4 + n1) == str_image(d.name@)
            &&& b.subrange(4 + n1, 8 + n1 + n2) == str_image(d.cta_link@)
            &&& b.subrange(8 + n1 + n2, q) == str_image(d.logo@)
            &&& b[q + 48] == status_tag(d.status)
        }),
{
    lemma_auto_spec_u64_to_from_le_bytes();
    lemma_auto_spec_u32_to_from_le_bytes();
    let b = data_image(d);
    let n1 = d.name@.len() as int;
    let n2 = d.cta_link@.len() as int;
    let n3 = d.logo@.len() as int;
    assert(b.subrange(0, 4 + n1) =~= str_image(d.name@));
    assert(b.subrange(4 + n1, 8 + n1 + n2) =~= str_image(d.cta_link@));
    assert(b.subrange(8 + n1 + n2, 12 + n1 + n2 + n3) =~= str_image(d.logo@));
}

fn read_u64(b: &Vec<u8>, pos: usize) -> (r: Option<u64>)
    ensures
        match r {
            Some(x) => pos + 8 <= b@.len() && b@.subrange(pos as int, pos + 8) == spec_u64_to_le_bytes(x),
            None => pos + 8 > b@.len(),
        },
{
    if pos > b.len() || b.len() - pos < 8 {
        return None;
    }
    let s = slice_subrange(b.as_slice(), pos, pos + 8);
    let x = u64_from_le_bytes(s);
    proof {
        lemma_auto_spec_u64_to_from_le_bytes();
    }
    Some(x)
}

fn read_key(b: &Vec<u8>, pos: usize) -> (r: Option<Pubkey>)
    ensures
        match r {
            Some(k) => pos + 32 <= b@.len() && b@.subrange(pos as int, pos + 32) == k@,
            None => pos + 32 > b@.len(),
        },
{
    if pos > b.len() || b.len() - pos < 32 {
        return None;
    }
    let mut k: Pubkey = [0u8; 32];
    let mut i: usize = 0;
    while i < 32
        invariant
            i <= 32,
            pos + 32 <= b@.len(),
            b@.len() <= usize::MAX,
            k@.len() == 32,
            forall|j: int| 0 <= j < i ==> k@[j] == b@[pos + j],
        decreases 32 - i,
    {
        k[i] = b[pos + i];
        i = i + 1;
    }
    assert(b@.subrange(pos as int, pos + 32) =~= k@);
    Some(k)
}

fn read_str(b: &Vec<u8>, pos: usize) -> (r: Option<Vec<u8>>)
    ensures
        match r {
            Some(v) => v@.len() <= MAX_FIELD_LEN && pos + 4 + v@.len() <= b@.len()
                && b@.subrange(pos as int, pos + 4 + v@.len()) == str_image(v@),
            None => forall|v: Seq<u8>| v.len() <= MAX_FIELD_LEN && pos + 4 + v.len() <= b@.len()
                ==> b@.subrange(pos as int, pos + 4 + v.len()) != #[trigger] str_image(v),
        },
{
    if pos > b.len() || b.len() - pos < 4 {
        return None;
    }
    let s = slice_subrange(b.as_slice(), pos, pos + 4);
    let n = u32_from_le_bytes(s);
    proof {
        lemma_auto_spec_u32_to_from_le_bytes();
    }
    if n as usize > MAX_FIELD_LEN || b.len() - pos - 4 < n as usize {
        proof {
            assert forall|v: Seq<u8>| v.len() <= MAX_FIELD_LEN && pos + 4 + v.len() <= b@.len()
                implies b@.subrange(pos as int, pos + 4 + v.len()) != #[trigger] str_image(v) by {
                if b@.subrange(pos as int, pos + 4 + v.len()) == str_image(v) {
                    assert(s@ =~= str_image(v).subrange(0, 4));
                    assert(str_image(v).subrange(0, 4) =~= spec_u32_to_le_bytes(v.len() as u32));
                }
            }
        }
        return None;
    }
    let start = pos + 4;
    let end = start + n as usize;
    let mut v: Vec<u8> = Vec::new();
    let mut i: usize = start;
    while i < end
        invariant
            start <= i <= end,
            end <= b@.len(),
            v@ == b@.subrange(start as int, i as int),
        decreases end - i,
    {
        v.push(b[i]);
        i = i + 1;
        assert(v@ =~= b@.subrange(start as int, i as int));
    }
    assert(b@.subrange(pos as int, pos + 4 + v@.len()) =~= str_image(v@));
    Some(v)
}

fn read_discriminator(b: &Vec<u8>, campaign: bool) -> (r: bool)
    ensures
        r <==> 8 <= b@.len() && b@.subrange(0, 8) == if campaign {
            campaign_discriminator()
        } else {
            affiliate_discriminator()
        },
{
    let mut want: Vec<u8> = Vec::new();
    push_discriminator(&mut want, campaign);
    assert(want@ =~= if campaign {
        campaign_discriminator()
    } else {
        affiliate_discriminator()
    });
    if b.len() < 8 {
        return false;
    }
    let mut i: usize = 0;
    while i < 8
        invariant
            i <= 8,
            8 <= b@.len(),
            want@ == if campaign {
                campaign_discriminator()
            } else {
                affiliate_discriminator()
            },
            forall|j: int| 0 <= j < i ==> b@[j] == want@[j],
        decreases 8 - i,
    {
        if b[i] != want[i] {
            assert(b@.subrange(0, 8)[i as int] != want@[i as int]);
            return false;
        }
        i = i + 1;
    }
    assert(b@.subrange(0, 8) =~= want@);
    true
}

fn read_tail_u64s(b: &Vec<u8>, pos: usize) -> (r: Option<(u64, u64, u64, u64, u64, u64)>)
    ensures
        match r {
            Some((x0, x1, x2, x3, x4, x5)) => pos + 48 <= b@.len() && b@.subrange(pos as int, pos + 48)
                == spec_u64_to_le_bytes(x0) + spec_u64_to_le_bytes(x1) + spec_u64_to_le_bytes(x2)
                + spec_u64_to_le_bytes(x3) + spec_u64_to_le_bytes(x4) + spec_u64_to_le_bytes(x5),
            None => pos + 48 > b@.len(),
        },
{
    if pos > b.len() || b.len() - pos < 48 {
        return None;
    }
    let x0 = match read_u64(b, pos) { Some(x) => x, None => return None };
    let x1 = match read_u64(b, pos + 8) { Some(x) => x, None => return None };
    let x2 = match read_u64(b, pos + 16) { Some(x) => x, None => return None };
    let x3 = match read_u64(b, pos + 24) { Some(x) => x, None => return None };
    let x4 = match read_u64(b, pos + 32) { Some(x) => x, None => return None };
    let x5 = match read_u64(b, pos + 40) { Some(x) => x, None => return None };
    assert(b@.subrange(pos as int, pos + 48) =~= b@.subrange(pos as int, pos + 8) + b@.subrange(pos + 8, pos + 16)
        + b@.subrange(pos + 16, pos + 24) + b@.subrange(pos + 24, pos + 32) + b@.subrange(pos + 32, pos + 40)
        + b@.subrange(pos + 40, pos + 48));
    Some((x0, x1, x2, x3, x4, x5))
}

proof fn lemma_data_witness(b: Seq<u8>, pos: int, x: CampaignData)
    requires
        0 <= pos <= b.len(),
        data_image(x) == b.subrange(pos, b.len() as int),
    ensures
        ({
            let n1 = x.name@.len() as int;
            let n2 = x.cta_link@.len() as int;
            let n3 = x.logo@.len() as int;
            &&& b.len() == pos + 61 + n1 + n2 + n3
            &&& b.subrange(pos, pos + 4 + n1) == str_image(x.name@)
            &&& b.subrange(pos + 4 + n1, pos + 8 + n1 + n2) == str_image(x.cta_link@)
            &&& b.subrange(pos + 8 + n1 + n2, pos + 12 + n1 + n2 + n3) == str_image(x.logo@)
            &&& b[pos + 12 + n1 + n2 + n3 + 48] == status_tag(x.status)
        }),
{
    lemma_data_layout(x);
    let whole = b.subrange(pos, b.len() as int);
    let n1 = x.name@.len() as int;
    let n2 = x.cta_link@.len() as int;
    let n3 = x.logo@.len() as int;
    assert(b.subrange(pos, pos + 4 + n1) =~= whole.subrange(0, 4 + n1));
    assert(b.subrange(pos + 4 + n1, pos + 8 + n1 + n2) =~= whole.subrange(4 + n1, 8 + n1 + n2));
    assert(b.subrange(pos + 8 + n1 + n2, pos + 12 + n1 + n2 + n3) =~= whole.subrange(8 + n1 + n2, 12 + n1 + n2 + n3));
    assert(b[pos + 12 + n1 + n2 + n3 + 48] == whole[12 + n1 + n2 + n3 + 48]);
}

proof fn lemma_data_assemble(b: Seq<u8>, pos: int, p1: int, p2: int, p3: int, d: CampaignData)
    requires
        0 <= pos <= p1 <= p2 <= p3,
        p3 + 49 == b.len(),
        b.subrange(pos, p1) == str_image(d.name@),
        b.subrange(p1, p2) == str_image(d.cta_link@),
        b.subrange(p2, p3) == str_image(d.logo@),
        b.subrange(p3, p3 + 48) == spec_u64_to_le_bytes(d.start_date) + spec_u64_to_le_bytes(d.end_date)
            + spec_u64_to_le_bytes(d.budget) + spec_u64_to_le_bytes(d.rate_per_click)
            + spec_u64_to_le_bytes(d.clicks) + spec_u64_to_le_bytes(d.remaining_budget),
        b[p3 + 48] == status_tag(d.status),
    ensures
        b.subrange(pos, b.len() as int) == data_image(d),
{
    assert(b.subrange(p3 + 48, p3 + 49) =~= seq![status_tag(d.status)]);
    assert(b.subrange(pos, b.len() as int) =~= b.subrange(pos, p1) + b.subrange(p1, p2)
        + b.subrange(p2, p3) + b.subrange(p3, p3 + 48) + b.subrange(p3 + 48, p3 + 49));
    assert(b.subrange(pos, b.len() as int) =~= data_image(d));
}

/// No bounded campaign data has `d` as its image.
pub open spec fn no_data_image(d: Seq<u8>) -> bool {
    forall|x: CampaignData| x.bounded() ==> #[trigger] data_image(x) != d
}

fn read_data(b: &Vec<u8>, pos: usize) -> (r: Option<CampaignData>)
    requires
        pos <= b@.len(),
    ensures
        match r {
            Some(d) => d.bounded() && b@.subrange(pos as int, b@.len() as int) == data_image(d),
            None => no_data_image(b@.subrange(pos as int, b@.len() as int)),
        },
{
    let ghost whole = b@.subrange(pos as int, b@.len() as int);
    let ghost w: Option<CampaignData> = if no_data_image(whole) {
        None
    } else {
        Some(choose|x: CampaignData| x.bounded() && data_image(x) == whole)
    };
    let ghost n1 = if w is Some { w->0.name@.len() as int } else { 0 };
    let ghost n2 = if w is Some { w->0.cta_link@.len() as int } else { 0 };
    let ghost n3 = if w is Some { w->0.logo@.len() as int } else { 0 };
    proof {
        if w is Some {
            lemma_data_witness(b@, pos as int, w->0);
        }
    }
    let total: usize = b.len();
    let name = match read_str(b, pos) {
        Some(x) => x,
        None => {
            proof {
                if w is Some {
                    assert(str_image(w->0.name@) == b@.subrange(pos as int, pos + 4 + n1));
                }
            }
            return None;
        },
    };
    proof {
        if w is Some {
            lemma_str_unique(b@, pos as int, name@, w->0.name@);
        }
    }
    let p1 = pos + 4 + name.len();
    let cta_link = match read_str(b, p1) {
        Some(x) => x,
        None => {
            proof {
                if w is Some {
                    assert(str_image(w->0.cta_link@) == b@.subrange(p1 as int, p1 + 4 + n2));
                }
            }
            return None;
        },
    };
    proof {
        if w is Some {
            lemma_str_unique(b@, p1 as int, cta_link@, w->0.cta_link@);
        }
    }
    let p2 = p1 + 4 + cta_link.len();
    let logo = match read_str(b, p2) {
        Some(x) => x,
        None => {
            proof {
                if w is Some {
                    assert(str_image(w->0.logo@) == b@.subrange(p2 as int, p2 + 4 + n3));
                }
            }
            return None;
        },
    };
    proof {
        if w is Some {
            lemma_str_unique(b@, p2 as int, logo@, w->0.logo@);
        }
    }
    let p3 = p2 + 4 + logo.len();
    let (start_date, end_date, budget, rate_per_click, clicks, remaining_budget) = match read_tail_u64s(b, p3) {
        Some(x) => x,
        None => return None,
    };
    if total - p3 != 49 {
        return None;
    }
    let status = match CampaignStatus::from_tag(b[p3 + 48]) { Some(x) => x, None => return None };
    let d = CampaignData { name, cta_link, logo, start_date, end_date, budget, rate_per_click, clicks, remaining_budget, status };
    proof {
        lemma_data_assemble(b@, pos as int, p1 as int, p2 as int, p3 as int, d);
    }
    Some(d)
}

/// No bounded campaign has `b` as its image.
pub open spec fn no_campaign_image(b: Seq<u8>) -> bool {
    forall|c: Campaign| c.data.bounded() ==> #[trigger] campaign_image(c) != b
}

/// Reads a campaign back from a leaf image. It succeeds exactly when `b` is
/// the image of some campaign whose text fields fit their bounds, and then
/// returns that campaign; an affiliate-link image, among others, is
/// malformed data.
pub fn decode_campaign(b: &Vec<u8>) -> (r: Result<Campaign, CustomError>)
    ensures
        match r {
            Ok(c) => c.data.bounded() && campaign_image(c) == b@,
            Err(e) => e == CustomError::MalformedData && no_campaign_image(b@),
        },
{
    let ghost w: Option<Campaign> = if no_campaign_image(b@) {
        None
    } else {
        Some(choose|c: Campaign| c.data.bounded() && campaign_image(c) == b@)
    };
    proof {
        lemma_auto_spec_u64_to_from_le_bytes();
        if w is Some {
            let c = w->0;
            assert(b@.subrange(0, 8) =~= campaign_discriminator());
            assert(b@.subrange(48, b@.len() as int) =~= data_image(c.data));
            lemma_data_layout(c.data);
        }
    }
    if !read_discriminator(b, true) {
        return Err(CustomError::MalformedData);
    }
    let campaign_id = match read_u64(b, 8) { Some(x) => x, None => return Err(CustomError::MalformedData) };
    let advertiser = match read_key(b, 16) { Some(x) => x, None => return Err(CustomError::MalformedData) };
    let data = match read_data(b, 48) { Some(x) => x, None => return Err(CustomError::MalformedData) };
    let c = Campaign { campaign_id, advertiser, data };
    assert(b@ =~= b@.subrange(0, 8) + b@.subrange(8, 16) + b@.subrange(16, 48) + b@.subrange(48, b@.len() as int));
    assert(campaign_image(c) =~= b@);
    Ok(c)
}

/// No bounded affiliate link has `b` as its image.
pub open spec fn no_affiliate_image(b: Seq<u8>) -> bool {
    forall|a: AffiliateLink| affiliate_bounded(a) ==> #[trigger] affiliate_image(a) != b
}

/// Reads an affiliate link back from a leaf image. It succeeds exactly when
/// `b` is the image of some link whose text fits its bound, and then returns
/// that link; a campaign image, among others, is malformed data.
pub fn decode_affiliate(b: &Vec<u8>) -> (r: Result<AffiliateLink, CustomError>)
    ensures
        match r {
            Ok(a) => affiliate_bounded(a) && affiliate_image(a) == b@,
            Err(e) => e == CustomError::MalformedData && no_affiliate_image(b@),
        },
{
    let ghost w: Option<AffiliateLink> = if no_affiliate_image(b@) {
        None
    } else {
        Some(choose|a: AffiliateLink| affiliate_bounded(a) && affiliate_image(a) == b@)
    };
    proof {
        lemma_auto_spec_u64_to_from_le_bytes();
        if w is Some {
            lemma_affiliate_layout(w->0);
        }
    }
    if !read_discriminator(b, false) {
        return Err(CustomError::MalformedData);
    }
    let total: usize = b.len();
    let campaign_id = match read_u64(b, 8) { Some(x) => x, None => return Err(CustomError::MalformedData) };
    let affiliate_pubkey = match read_key(b, 16) { Some(x) => x, None => return Err(CustomError::MalformedData) };
    let unique_link = match read_str(b, 48) {
        Some(x) => x,
        None => {
            proof {
                if w is Some {
                    assert(str_image(w->0.unique_link@) == b@.subrange(48, 52 + w->0.unique_link@.len() as int));
                }
            }
            return Err(CustomError::MalformedData);
        },
    };
    proof {
        if w is Some {
            lemma_str_unique(b@, 48, unique_link@, w->0.unique_link@);
        }
    }
    let pos: usize = 52 + unique_link.len();
    let total_clicks = match read_u64(b, pos) { Some(x) => x, None => return Err(CustomError::MalformedData) };
    if total - pos != 9 || b[pos + 8] > 1 {
        return Err(CustomError::MalformedData);
    }
    let claimed = b[pos + 8] == 1;
    let a = AffiliateLink { campaign_id, affiliate_pubkey, unique_link, total_clicks, claimed };
    assert(b@ =~= b@.subrange(0, 8) + b@.subrange(8, 16) + b@.subrange(16, 48) + b@.subrange(48, pos as int)
        + b@.subrange(pos as int, pos + 8) + b@.subrange(pos + 8, pos + 9));
    assert(b@.subrange(pos + 8, pos + 9) =~= seq![if claimed { 1u8 } else { 0u8 }]);
    assert(affiliate_image(a) =~= b@);
    Ok(a)
}

/// A leaf is bound to its type: no byte string is both a campaign image and
/// an affiliate-link image, so each decoder refuses the other's leaves.
pub proof fn lemma_images_disjoint(c: Campaign, a: AffiliateLink)
    ensures
        campaign_image(c) != affiliate_image(a),
{
    assert(campaign_image(c)[0] == 50u8);
    assert(affiliate_image(a)[0] == 78u8);
}

/// Two campaigns that agree on every field, text compared by content.
pub open spec fn same_campaign(c1: Campaign, c2: Campaign) -> bool {
    &&& c1.campaign_id == c2.campaign_id
    &&& c1.advertiser@ == c2.advertiser@
    &&& c1.data.name@ == c2.data.name@
    &&& c1.data.cta_link@ == c2.data.cta_link@
    &&& c1.data.logo@ == c2.data.logo@
    &&& c1.data.start_date == c2.data.start_date
    &&& c1.data.end_date == c2.data.end_date
    &&& c1.data.budget == c2.data.budget
    &&& c1.data.rate_per_click == c2.data.rate_per_click
    &&& c1.data.clicks == c2.data.clicks
    &&& c1.data.remaining_budget == c2.data.remaining_budget
    &&& c1.data.status == c2.data.status
}

/// Two affiliate links that agree on every field, text compared by content.
pub open spec fn same_affiliate(a1: AffiliateLink, a2: AffiliateLink) -> bool {
    &&& a1.campaign_id == a2.campaign_id
    &&& a1.affiliate_pubkey@ == a2.affiliate_pubkey@
    &&& a1.unique_link@ == a2.unique_link@
    &&& a1.total_clicks == a2.total_clicks
    &&& a1.claimed == a2.claimed
}

proof fn lemma_u64_chunk(b: Seq<u8>, at: int, x: u64, y: u64)
    requires
        0 <= at,
        at + 8 <= b.len(),
        b.subrange(at, at + 8) == spec_u64_to_le_bytes(x),
        b.subrange(at, at + 8) == spec_u64_to_le_bytes(y),
    ensures
        x == y,
{
    lemma_auto_spec_u64_to_from_le_bytes();
}

/// Round trip: the image of a bounded record is decoded, and only a record
/// equal to it, field by field, has that image.
pub proof fn lemma_round_trip(c1: Campaign, c2: Campaign, a1: AffiliateLink, a2: AffiliateLink)
    ensures
        c1.data.bounded() ==> !no_campaign_image(campaign_image(c1)),
        affiliate_bounded(a1) ==> !no_affiliate_image(affiliate_image(a1)),
        c1.data.bounded() && c2.data.bounded() && campaign_image(c1) == campaign_image(c2)
            ==> same_campaign(c1, c2),
        affiliate_bounded(a1) && affiliate_bounded(a2) && affiliate_image(a1) == affiliate_image(a2)
            ==> same_affiliate(a1, a2),
{
    lemma_auto_spec_u64_to_from_le_bytes();
    if c1.data.bounded() && c2.data.bounded() && campaign_image(c1) == campaign_image(c2) {
        let b = campaign_image(c1);
        assert(b.subrange(8, 16) =~= spec_u64_to_le_bytes(c1.campaign_id));
        assert(campaign_image(c2).subrange(8, 16) =~= spec_u64_to_le_bytes(c2.campaign_id));
        lemma_u64_chunk(b, 8, c1.campaign_id, c2.campaign_id);
        assert(b.subrange(16, 48) =~= c1.advertiser@);
        assert(campaign_image(c2).subrange(16, 48) =~= c2.advertiser@);
        assert(b.subrange(48, b.len() as int) =~= data_image(c1.data));
        assert(campaign_image(c2).subrange(48, b.len() as int) =~= data_image(c2.data));
        lemma_data_witness(b, 48, c1.data);
        lemma_data_witness(b, 48, c2.data);
        let n1 = c1.data.name@.len() as int;
        lemma_str_unique(b, 48, c1.data.name@, c2.data.name@);
        let n2 = c1.data.cta_link@.len() as int;
        lemma_str_unique(b, 52 + n1, c1.data.cta_link@, c2.data.cta_link@);
        let n3 = c1.data.logo@.len() as int;
        lemma_str_unique(b, 56 + n1 + n2, c1.data.logo@, c2.data.logo@);
        let q = 48 + 12 + n1 + n2 + n3;
        let d1 = c1.data;
        let d2 = c2.data;
        assert(b.subrange(q, q + 8) =~= spec_u64_to_le_bytes(d1.start_date));
        assert(b.subrange(q, q + 8) =~= spec_u64_to_le_bytes(d2.start_date));
        assert(b.subrange(q + 8, q + 16) =~= spec_u64_to_le_bytes(d1.end_date));
        assert(b.subrange(q + 8, q + 16) =~= spec_u64_to_le_bytes(d2.end_date));
        assert(b.subrange(q + 16, q + 24) =~= spec_u64_to_le_bytes(d1.budget));
        assert(b.subrange(q + 16, q + 24) =~= spec_u64_to_le_bytes(d2.budget));
        assert(b.subrange(q + 24, q + 32) =~= spec_u64_to_le_bytes(d1.rate_per_click));
        assert(b.subrange(q + 24, q + 32) =~= spec_u64_to_le_bytes(d2.rate_per_click));
        assert(b.subrange(q + 32, q + 40) =~= spec_u64_to_le_bytes(d1.clicks));
        assert(b.subrange(q + 32, q + 40) =~= spec_u64_to_le_bytes(d2.clicks));
        assert(b.subrange(q + 40, q + 48) =~= spec_u64_to_le_bytes(d1.remaining_budget));
        assert(b.subrange(q + 40, q + 48) =~= spec_u64_to_le_bytes(d2.remaining_budget));
        lemma_u64_chunk(b, q, d1.start_date, d2.start_date);
        lemma_u64_chunk(b, q + 8, d1.end_date, d2.end_date);
        lemma_u64_chunk(b, q + 16, d1.budget, d2.budget);
        lemma_u64_chunk(b, q + 24, d1.rate_per_click, d2.rate_per_click);
        lemma_u64_chunk(b, q + 32, d1.clicks, d2.clicks);
        lemma_u64_chunk(b, q + 40, d1.remaining_budget, d2.remaining_budget);
    }
    if affiliate_bounded(a1) && affiliate_bounded(a2) && affiliate_image(a1) == affiliate_image(a2) {
        let b = affiliate_image(a1);
        lemma_affiliate_layout(a1);
        lemma_affiliate_layout(a2);
        lemma_u64_chunk(b, 8, a1.campaign_id, a2.campaign_id);
        lemma_str_unique(b, 48, a1.unique_link@, a2.unique_link@);
        let n = a1.unique_link@.len() as int;
        lemma_u64_chunk(b, 52 + n, a1.total_clicks, a2.total_clicks);
    }
}

} // verus!
