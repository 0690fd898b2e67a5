use vstd::prelude::*;
use vstd::bytes::{spec_u64_to_le_bytes, u64_to_le_bytes, lemma_auto_spec_u64_to_from_le_bytes};
use crate::accounts::Pubkey;

verus! {

/// The address seed that light-sdk derives from an owning program, an
/// address tree and ordered seed segments.
pub uninterp spec fn address_seed_of(program: Seq<u8>, tree: Seq<u8>, seeds: Seq<Seq<u8>>) -> Seq<u8>;

/// The id of the program that owns every record of this ledger.
pub open spec fn program_id_spec() -> Seq<u8> {
    seq![
        103u8, 208u8, 24u8, 127u8, 186u8, 25u8, 206u8, 229u8, 38u8, 63u8, 37u8, 122u8, 62u8,
        162u8, 4u8, 56u8, 133u8, 55u8, 39u8, 214u8, 1u8, 111u8, 154u8, 141u8, 128u8, 54u8, 91u8,
        153u8, 209u8, 205u8, 29u8, 155u8,
    ]
}

/// The tag segment of campaign seeds: the bytes of "campaign".
pub open spec fn campaign_tag() -> Seq<u8> {
    seq![99u8, 97u8, 109u8, 112u8, 97u8, 105u8, 103u8, 110u8]
}

/// The tag segment of affiliate seeds: the bytes of "affiliate".
pub open spec fn affiliate_tag() -> Seq<u8> {
    seq![97u8, 102u8, 102u8, 105u8, 108u8, 105u8, 97u8, 116u8, 101u8]
}

/// The seed segments of the campaign that `advertiser` opened under `id`.
pub open spec fn campaign_seeds(advertiser: Seq<u8>, id: u64) -> Seq<Seq<u8>> {
    seq![campaign_tag(), advertiser, spec_u64_to_le_bytes(id)]
}

/// The seed segments of the link that `affiliate` holds in campaign `id`.
pub open spec fn affiliate_seeds(affiliate: Seq<u8>, id: u64) -> Seq<Seq<u8>> {
    seq![affiliate_tag(), affiliate, spec_u64_to_le_bytes(id)]
}

/// The seed segments of the single link that the simpler registration gives
/// `affiliate`: the affiliate's key alone, whatever the campaign.
pub open spec fn affiliate_only_seeds(affiliate: Seq<u8>) -> Seq<Seq<u8>> {
    seq![affiliate_tag(), affiliate]
}

/// The address of a record with seeds `seeds` under address tree `tree`.
pub open spec fn address_of(tree: Seq<u8>, seeds: Seq<Seq<u8>>) -> Seq<u8> {
    address_seed_of(program_id_spec(), tree, seeds)
}

/// Relies on light_sdk::address::derive_address_seed, which hashes the
/// program id, the address tree's key and the seeds, and clears the first
/// byte so that the result lies in the BN254 field.
#[verifier::external_body]
fn derive_address_seed(seeds: &Vec<Vec<u8>>, program: &Pubkey, tree: &Pubkey) -> (r: Pubkey)
    ensures
        r@ == address_seed_of(program@, tree@, seeds.deep_view()),
        r@[0] == 0,
{
    let parts: Vec<&[u8]> = seeds.iter().map(|s| s.as_slice()).collect();
    let context = light_sdk::merkle_context::AddressMerkleContext {
        address_merkle_tree_pubkey: anchor_lang::prelude::Pubkey::new_from_array(*tree),
        address_queue_pubkey: anchor_lang::prelude::Pubkey::default(),
    };
    light_sdk::address::derive_address_seed(
        &parts,
        &anchor_lang::prelude::Pubkey::new_from_array(*program),
        &context,
    )
}

/// The id of the program that owns every record of this ledger.
pub fn program_id() -> (r: Pubkey)
    ensures
        r@ == program_id_spec(),
{
    let r: Pubkey = [
        103, 208, 24, 127, 186, 25, 206, 229, 38, 63, 37, 122, 62, 162, 4, 56, 133, 55, 39, 214,
        1, 111, 154, 141, 128, 54, 91, 153, 209, 205, 29, 155,
    ];
    assert(r@ =~= program_id_spec());
    r
}

fn key_segment(k: &Pubkey) -> (r: Vec<u8>)
    ensures
        r@ == k@,
{
    let mut r: Vec<u8> = Vec::new();
    let mut i: usize = 0;
    while i < 32
        invariant
            i <= 32,
            k@.len() == 32,
            r@ == k@.subrange(0, i as int),
        decreases 32 - i,
    {
        r.push(k[i]);
        i = i + 1;
        assert(r@ =~= k@.subrange(0, i as int));
    }
    assert(k@.subrange(0, 32) =~= k@);
    r
}

fn three_segments(a: Vec<u8>, b: Vec<u8>, c: Vec<u8>) -> (r: Vec<Vec<u8>>)
    ensures
        r.deep_view() == seq![a@, b@, c@],
{
    let mut r: Vec<Vec<u8>> = Vec::new();
    r.push(a);
    r.push(b);
    r.push(c);
    assert(r.deep_view()[0] =~= a@);
    assert(r.deep_view()[1] =~= b@);
    assert(r.deep_view()[2] =~= c@);
    assert(r.deep_view() =~= seq![a@, b@, c@]);
    r
}

/// Derives the address of a record from its seed segments, for the address
/// tree `tree`. The same segments always give the same address.
pub fn derive_address(seeds: &Vec<Vec<u8>>, tree: &Pubkey) -> (r: Pubkey)
    ensures
        r@ == address_of(tree@, seeds.deep_view()),
{
    let program = program_id();
    derive_address_seed(seeds, &program, tree)
}

/// The address of the campaign that `advertiser` opened under `id`.
pub fn campaign_address(tree: &Pubkey, advertiser: &Pubkey, id: u64) -> (r: Pubkey)
    ensures
        r@ == address_of(tree@, campaign_seeds(advertiser@, id)),
{
    let tag: Vec<u8> = vec![99, 97, 109, 112, 97, 105, 103, 110];
    assert(tag@ =~= campaign_tag());
    let seeds = three_segments(tag, key_segment(advertiser), u64_to_le_bytes(id));
    assert(seeds.deep_view() =~= campaign_seeds(advertiser@, id));
    derive_address(&seeds, tree)
}

/// The address of the link that `affiliate` holds in campaign `id`.
pub fn affiliate_address(tree: &Pubkey, affiliate: &Pubkey, id: u64) -> (r: Pubkey)
    ensures
        r@ == address_of(tree@, affiliate_seeds(affiliate@, id)),
{
    let tag: Vec<u8> = vec![97, 102, 102, 105, 108, 105, 97, 116, 101];
    assert(tag@ =~= affiliate_tag());
    let seeds = three_segments(tag, key_segment(affiliate), u64_to_le_bytes(id));
    assert(seeds.deep_view() =~= affiliate_seeds(affiliate@, id));
    derive_address(&seeds, tree)
}

/// The address of the single link of `affiliate` in the simpler registration.
pub fn affiliate_only_address(tree: &Pubkey, affiliate: &Pubkey) -> (r: Pubkey)
    ensures
        r@ == address_of(tree@, affiliate_only_seeds(affiliate@)),
{
    let tag: Vec<u8> = vec![97, 102, 102, 105, 108, 105, 97, 116, 101];
    assert(tag@ =~= affiliate_tag());
    let mut seeds: Vec<Vec<u8>> = Vec::new();
    seeds.push(tag);
    seeds.push(key_segment(affiliate));
    assert(seeds.deep_view()[0] =~= affiliate_tag());
    assert(seeds.deep_view()[1] =~= affiliate@);
    assert(seeds.deep_view() =~= affiliate_only_seeds(affiliate@));
    derive_address(&seeds, tree)
}

/// Derivation is a function of its inputs: equal seed segments under the
/// same tree give equal addresses.
pub proof fn lemma_derivation_deterministic(
    tree: Seq<u8>,
    s1: Seq<Seq<u8>>,
    s2: Seq<Seq<u8>>,
)
    requires
        s1 == s2,
    ensures
        address_of(tree, s1) == address_of(tree, s2),
{
}

/// Distinct records give distinct seed segments: two campaigns differ in
/// their seeds unless advertiser and id agree, likewise two affiliate links,
/// and no campaign shares its seeds with an affiliate link.
pub proof fn lemma_seeds_distinct(k1: Seq<u8>, id1: u64, k2: Seq<u8>, id2: u64)
    ensures
        campaign_seeds(k1, id1) == campaign_seeds(k2, id2) ==> k1 == k2 && id1 == id2,
        affiliate_seeds(k1, id1) == affiliate_seeds(k2, id2) ==> k1 == k2 && id1 == id2,
        campaign_seeds(k1, id1) != affiliate_seeds(k2, id2),
        affiliate_seeds(k1, id1) != affiliate_only_seeds(k2),
{
    lemma_auto_spec_u64_to_from_le_bytes();
    if campaign_seeds(k1, id1) == campaign_seeds(k2, id2) {
        assert(campaign_seeds(k1, id1)[1] == k1);
        assert(campaign_seeds(k1, id1)[2] == spec_u64_to_le_bytes(id1));
        assert(campaign_seeds(k2, id2)[2] == spec_u64_to_le_bytes(id2));
    }
    if affiliate_seeds(k1, id1) == affiliate_seeds(k2, id2) {
        assert(affiliate_seeds(k1, id1)[1] == k1);
        assert(affiliate_seeds(k1, id1)[2] == spec_u64_to_le_bytes(id1));
        assert(affiliate_seeds(k2, id2)[2] == spec_u64_to_le_bytes(id2));
    }
    assert(campaign_seeds(k1, id1)[0].len() != affiliate_seeds(k2, id2)[0].len());
    assert(affiliate_seeds(k1, id1).len() != affiliate_only_seeds(k2).len());
}

} // verus!
