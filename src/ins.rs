//! Registry operations: each takes what the store holds and returns what to store.
use vstd::prelude::*;
use crate::collection::{with_added, with_removed};
use crate::error::ContractError;
use crate::state::{
    IndexCounter, LandNft, LandNftModel, LandNftMediaType, LandNftRoyalty, Treasury, land_key,
    new_land_model, opt_str, entries, removed_from, default_media, clone_opt_string, treasuries,
    treasury_list, DEFAULT_PRICE_DENOM, LAND_NFT_STATUS_MINTED, MEDIA_TYPE_IMAGE, MEDIA_TYPE_VIDEO,
    MEDIA_TYPE_ANIMATION, lemma_land_key_injective,
};

verus! {

pub const ADMIN_WALLET_A: &'static str = "terra1ek2jqqyyzm8ywwp8qwp6phmsaclq3uryg48vf9";

pub const ADMIN_WALLET_B: &'static str = "terra1c4kq5cft2df40q3tr9y0uum6cpksjf0f4y7zz0";

pub const ADMIN_WALLET_C: &'static str = "terra19c4jcex5zkdky00qqjpu5u5usvjk7wklxsajp3";

/// The principals allowed to change the registry.
pub open spec fn is_admin(sender: Seq<char>) -> bool {
    sender == ADMIN_WALLET_A@ || sender == ADMIN_WALLET_B@ || sender == ADMIN_WALLET_C@
}

fn same_text(a: &str, b: &str) -> (r: bool)
    ensures
        r == (a@ == b@),
{
    let x = String::from_str(a);
    let y = String::from_str(b);
    x.eq(&y)
}

/// Whether `sender` is on the allow-list.
pub fn is_allowed_admin(sender: &str) -> (r: bool)
    ensures
        r == is_admin(sender@),
{
    same_text(sender, ADMIN_WALLET_A) || same_text(sender, ADMIN_WALLET_B) || same_text(
        sender,
        ADMIN_WALLET_C,
    )
}

/// The allow-list check that every change runs before it reads the store.
pub fn authorize(sender: &str) -> (r: Result<(), ContractError>)
    ensures
        r == if is_admin(sender@) {
            Ok::<(), ContractError>(())
        } else {
            Err(ContractError::Unauthorized {})
        },
{
    if is_allowed_admin(sender) {
        Ok(())
    } else {
        Err(ContractError::Unauthorized {})
    }
}

/// The counter value for the next record: one past the stored value, or 1 when none is stored.
pub open spec fn next_index(stored: Option<IndexCounter>) -> nat {
    match stored {
        Some(c) => (c.spec_index() + 1) as nat,
        None => 1,
    }
}

/// First step of creating a record: checks the caller, advances the counter and derives the
/// new key. The caller stores the returned counter.
pub fn add_land_nft(sender: &str, stored_counter: Option<IndexCounter>) -> (r: Result<
    (IndexCounter, String),
    ContractError,
>)
    requires
        stored_counter matches Some(c) ==> c.spec_index() < u32::MAX,
    ensures
        !is_admin(sender@) ==> r == Err::<(IndexCounter, String), ContractError>(
            ContractError::Unauthorized {},
        ),
        is_admin(sender@) ==> (r matches Ok((c, k)) && c.spec_index() == next_index(stored_counter)
            && k@ == land_key(next_index(stored_counter))),
{
    if !is_allowed_admin(sender) {
        return Err(ContractError::Unauthorized {});
    }
    let counter = match stored_counter {
        Some(mut c) => {
            c.increment();
            c
        },
        None => IndexCounter::new(),
    };
    let key = LandNft::key(counter.get_index());
    Ok((counter, key))
}

/// Second step of creating a record: builds it at `key`, which must be free in the store.
pub fn add_land_nft_by_key(
    key: String,
    existing: Option<LandNft>,
    owner: String,
    name: Option<String>,
    description: Option<String>,
    total_size: u64,
    each_size: u64,
    size_unit: Option<String>,
    addr: String,
    total_lands: u16,
    price: u64,
    price_denom: Option<String>,
    now: u64,
) -> (r: Result<LandNft, ContractError>)
    ensures
        existing is Some ==> r == Err::<LandNft, ContractError>(
            ContractError::AlreadyExists { key: key },
        ),
        existing is None ==> (r matches Ok(l) && l@ == new_land_model(
            Some(key@),
            opt_str(name),
            opt_str(description),
            owner@,
            total_size,
            each_size,
            opt_str(size_unit),
            addr@,
            total_lands,
            price,
            opt_str(price_denom),
            now,
        )),
{
    if existing.is_some() {
        return Err(ContractError::AlreadyExists { key: key });
    }
    Ok(
        LandNft::new(
            Some(key),
            name,
            description,
            owner,
            total_size,
            each_size,
            size_unit,
            addr,
            total_lands,
            price,
            price_denom,
            now,
        ),
    )
}

/// The error, if any, that stops a change to the record at `key`: the caller is checked first,
/// then that a record is stored, then that it is not minted.
pub open spec fn change_error(sender: Seq<char>, key: String, stored: Option<LandNft>) -> Option<
    ContractError,
> {
    if !is_admin(sender) {
        Some(ContractError::Unauthorized {})
    } else if stored is None {
        Some(ContractError::InvalidLandNft {})
    } else if stored.unwrap().status is Some {
        Some(ContractError::AlreadyMinted { key: key })
    } else {
        None
    }
}

fn check_change(sender: &str, key: &String, stored: Option<LandNft>) -> (r: Result<
    LandNft,
    ContractError,
>)
    ensures
        match change_error(sender@, *key, stored) {
            Some(e) => r == Err::<LandNft, ContractError>(e),
            None => r matches Ok(l) && l@ == stored.unwrap()@,
        },
{
    if !is_allowed_admin(sender) {
        return Err(ContractError::Unauthorized {});
    }
    match stored {
        None => Err(ContractError::InvalidLandNft {}),
        Some(l) => {
            if l.status.is_some() {
                Err(ContractError::AlreadyMinted { key: key.clone() })
            } else {
                Ok(l)
            }
        },
    }
}

/// A record after an update: every field that the update supplies is replaced, the time is
/// stamped, and the key, owner, status, symbol, sub-collections and creation time are kept.
pub open spec fn updated_land_model(
    old: LandNftModel,
    key: Seq<char>,
    name: Option<Seq<char>>,
    description: Option<Seq<char>>,
    total_size: u64,
    each_size: u64,
    size_unit: Option<Seq<char>>,
    addr: Seq<char>,
    total_lands: u16,
    price: u64,
    price_denom: Option<Seq<char>>,
    now: u64,
) -> LandNftModel {
    LandNftModel {
        owner: old.owner,
        status: old.status,
        symbol: old.symbol,
        media_types: old.media_types,
        royalties: old.royalties,
        other_attributes: old.other_attributes,
        date_created: old.date_created,
        ..new_land_model(
            Some(key),
            name,
            description,
            old.owner,
            total_size,
            each_size,
            size_unit,
            addr,
            total_lands,
            price,
            price_denom,
            now,
        )
    }
}

/// Replaces the descriptive, size and price fields of the unminted record stored at `for_key`.
pub fn update_land_nft(
    sender: &str,
    for_key: String,
    stored: Option<LandNft>,
    name: Option<String>,
    description: Option<String>,
    total_size: u64,
    each_size: u64,
    size_unit: Option<String>,
    addr: String,
    total_lands: u16,
    price: u64,
    price_denom: Option<String>,
    now: u64,
) -> (r: Result<LandNft, ContractError>)
    ensures
        match change_error(sender@, for_key, stored) {
            Some(e) => r == Err::<LandNft, ContractError>(e),
            None => r matches Ok(l) && l@ == updated_land_model(
                stored.unwrap()@,
                for_key@,
                opt_str(name),
                opt_str(description),
                total_size,
                each_size,
                opt_str(size_unit),
                addr@,
                total_lands,
                price,
                opt_str(price_denom),
                now,
            ),
        },
{
    let old = check_change(sender, &for_key, stored)?;
    let mut l = LandNft::new(
        Some(for_key),
        name,
        description,
        old.owner,
        total_size,
        each_size,
        size_unit,
        addr,
        total_lands,
        price,
        price_denom,
        now,
    );
    l.status = old.status;
    l.symbol = old.symbol;
    l.media_types = old.media_types;
    l.royalties = old.royalties;
    l.other_attributes = old.other_attributes;
    l.date_created = old.date_created;
    Ok(l)
}

/// Checks that the unminted record stored at `for_key` may be deleted.
pub fn remove_land_nft(sender: &str, for_key: &String, stored: Option<LandNft>) -> (r: Result<
    (),
    ContractError,
>)
    ensures
        match change_error(sender@, *for_key, stored) {
            Some(e) => r == Err::<(), ContractError>(e),
            None => r == Ok::<(), ContractError>(()),
        },
{
    check_change(sender, for_key, stored)?;
    Ok(())
}

/// Adds a royalty share, stamped with `now`, unless one for the same wallet is present.
pub fn add_land_nft_royalty(
    sender: &str,
    for_key: &String,
    stored: Option<LandNft>,
    royalty: LandNftRoyalty,
    now: u64,
) -> (r: Result<LandNft, ContractError>)
    ensures
        match change_error(sender@, *for_key, stored) {
            Some(e) => r == Err::<LandNft, ContractError>(e),
            None => r matches Ok(l) && l@ == (LandNftModel {
                royalties: Some(
                    with_added(
                        entries(stored.unwrap()@.royalties),
                        LandNftRoyalty { date_updated: Some(now), ..royalty },
                    ),
                ),
                date_updated: now,
                ..stored.unwrap()@
            }),
        },
{
    let mut l = check_change(sender, for_key, stored)?;
    let mut royalty = royalty;
    royalty.date_updated = Some(now);
    l.add_royalty(royalty, now);
    Ok(l)
}

/// Removes the royalty share of `creator_wallet`, if present.
pub fn remove_land_nft_royalty(
    sender: &str,
    for_key: &String,
    stored: Option<LandNft>,
    creator_wallet: String,
    now: u64,
) -> (r: Result<LandNft, ContractError>)
    ensures
        match change_error(sender@, *for_key, stored) {
            Some(e) => r == Err::<LandNft, ContractError>(e),
            None => r matches Ok(l) && l@ == (LandNftModel {
                royalties: removed_from(stored.unwrap()@.royalties, creator_wallet@),
                date_updated: now,
                ..stored.unwrap()@
            }),
        },
{
    let mut l = check_change(sender, for_key, stored)?;
    l.remove_royalty(creator_wallet, now);
    Ok(l)
}

/// Adds a media reference, stamped with `now`, unless one with the same url is present.
pub fn add_land_nft_media_type(
    sender: &str,
    for_key: &String,
    stored: Option<LandNft>,
    media_type: LandNftMediaType,
    now: u64,
) -> (r: Result<LandNft, ContractError>)
    ensures
        match change_error(sender@, *for_key, stored) {
            Some(e) => r == Err::<LandNft, ContractError>(e),
            None => r matches Ok(l) && l@ == (LandNftModel {
                media_types: Some(
                    with_added(
                        entries(stored.unwrap()@.media_types),
                        LandNftMediaType { date_updated: Some(now), ..media_type },
                    ),
                ),
                date_updated: now,
                ..stored.unwrap()@
            }),
        },
{
    let mut l = check_change(sender, for_key, stored)?;
    let mut media_type = media_type;
    media_type.date_updated = Some(now);
    l.add_media_type(media_type, now);
    Ok(l)
}

/// Removes the media reference with `url`, if present.
pub fn remove_land_nft_media_type(
    sender: &str,
    for_key: &String,
    stored: Option<LandNft>,
    url: String,
    now: u64,
) -> (r: Result<LandNft, ContractError>)
    ensures
        match change_error(sender@, *for_key, stored) {
            Some(e) => r == Err::<LandNft, ContractError>(e),
            None => r matches Ok(l) && l@ == (LandNftModel {
                media_types: removed_from(stored.unwrap()@.media_types, url@),
                date_updated: now,
                ..stored.unwrap()@
            }),
        },
{
    let mut l = check_change(sender, for_key, stored)?;
    l.remove_media_type(url, now);
    Ok(l)
}

/// The name under which the token namespace is set up.
pub const CONTRACT_NAME: &'static str = "crates.io:counter";

/// The prefix of a token's external url when the caller gives none.
pub const DEFAULT_EXTERN_URL_PREFIX: &'static str = "https://neworld.techchee.com/land-nft";

/// What the token subsystem is set up with: a name, a symbol and the minting authority.
#[derive(Debug)]
pub struct MintingSetup {
    pub name: String,
    pub symbol: String,
    pub minter: String,
}

/// Token metadata built from a record.
#[derive(Debug)]
pub struct NftMetadata {
    pub name: Option<String>,
    pub description: Option<String>,
    pub image: Option<String>,
    pub youtube_url: Option<String>,
    pub animation_url: Option<String>,
    pub external_url: Option<String>,
}

/// What the token subsystem is asked to mint.
#[derive(Debug)]
pub struct MintRequest {
    pub token_id: String,
    pub owner: String,
    pub token_uri: Option<String>,
    pub extension: NftMetadata,
}

/// Sets up the token namespace with the symbol of the record stored at the key.
pub fn ins_land_nft_for_minting(sender: &str, stored: &Option<LandNft>) -> (r: Result<
    MintingSetup,
    ContractError,
>)
    ensures
        !is_admin(sender@) ==> r == Err::<MintingSetup, ContractError>(ContractError::Unauthorized {}),
        is_admin(sender@) && stored is None ==> r == Err::<MintingSetup, ContractError>(
            ContractError::InvalidLandNft {},
        ),
        is_admin(sender@) && stored is Some ==> (r matches Ok(s) && s.name@ == CONTRACT_NAME@
            && s.symbol@ == stored.unwrap().symbol@ && s.minter@ == sender@),
{
    if !is_allowed_admin(sender) {
        return Err(ContractError::Unauthorized {});
    }
    match stored {
        None => Err(ContractError::InvalidLandNft {}),
        Some(l) => Ok(
            MintingSetup {
                name: String::from_str(CONTRACT_NAME),
                symbol: l.symbol.clone(),
                minter: String::from_str(sender),
            },
        ),
    }
}

/// The external url of the token for `key`: the prefix, `/`, and the key.
pub open spec fn external_url(prefix: Option<Seq<char>>, key: Seq<char>) -> Seq<char> {
    (match prefix {
        Some(p) => p,
        None => DEFAULT_EXTERN_URL_PREFIX@,
    }) + "/"@ + key
}

/// The url of the first default media entry of type `media_type`.
pub open spec fn default_url(m: LandNftModel, media_type: u8) -> Option<Seq<char>> {
    match default_media(entries(m.media_types), media_type) {
        Some(x) => Some(x.url@),
        None => None,
    }
}

/// The error, if any, that stops minting: the caller is checked first, then that a record with
/// a key is stored, then that it is not minted yet.
pub open spec fn mint_error(sender: Seq<char>, stored: Option<LandNft>) -> Option<ContractError> {
    if !is_admin(sender) {
        Some(ContractError::Unauthorized {})
    } else if stored is None || stored.unwrap().key is None {
        Some(ContractError::InvalidLandNft {})
    } else if stored.unwrap().status is Some {
        Some(ContractError::AlreadyMinted { key: stored.unwrap().key.unwrap() })
    } else {
        None
    }
}

/// `q` mints the token of record `m` to `owner`, with metadata from the record.
pub open spec fn is_mint_request_for(
    q: MintRequest,
    m: LandNftModel,
    owner: Seq<char>,
    prefix: Option<Seq<char>>,
) -> bool {
    let url = external_url(prefix, m.key.unwrap());
    &&& q.token_id@ == m.key.unwrap()
    &&& q.owner@ == owner
    &&& opt_str(q.token_uri) == Some(url)
    &&& opt_str(q.extension.name) == m.name
    &&& opt_str(q.extension.description) == m.description
    &&& opt_str(q.extension.image) == default_url(m, MEDIA_TYPE_IMAGE)
    &&& opt_str(q.extension.youtube_url) == default_url(m, MEDIA_TYPE_VIDEO)
    &&& opt_str(q.extension.animation_url) == default_url(m, MEDIA_TYPE_ANIMATION)
    &&& opt_str(q.extension.external_url) == Some(url)
}

/// Decides whether the record may be minted to `sender` and builds the request for the token
/// subsystem: default media urls, and an external url from the prefix and the key.
pub fn mint_land_nft(
    sender: &str,
    stored: &Option<LandNft>,
    extern_url_prefix: Option<String>,
) -> (r: Result<MintRequest, ContractError>)
    ensures
        match mint_error(sender@, *stored) {
            Some(e) => r == Err::<MintRequest, ContractError>(e),
            None => r matches Ok(q) && is_mint_request_for(
                q,
                stored.unwrap()@,
                sender@,
                opt_str(extern_url_prefix),
            ),
        },
{
    if !is_allowed_admin(sender) {
        return Err(ContractError::Unauthorized {});
    }
    let land = match stored {
        None => {
            return Err(ContractError::InvalidLandNft {});
        },
        Some(l) => l,
    };
    let key = match &land.key {
        None => {
            return Err(ContractError::InvalidLandNft {});
        },
        Some(k) => k.clone(),
    };
    if land.status.is_some() {
        return Err(ContractError::AlreadyMinted { key: key });
    }
    let mut url = match extern_url_prefix {
        Some(p) => p,
        None => String::from_str(DEFAULT_EXTERN_URL_PREFIX),
    };
    url.append("/");
    url.append(key.as_str());
    let extension = NftMetadata {
        name: clone_opt_string(&land.name),
        description: clone_opt_string(&land.description),
        image: land.default_media_type_url(MEDIA_TYPE_IMAGE),
        youtube_url: land.default_media_type_url(MEDIA_TYPE_VIDEO),
        animation_url: land.default_media_type_url(MEDIA_TYPE_ANIMATION),
        external_url: Some(url.clone()),
    };
    Ok(
        MintRequest {
            token_id: key,
            owner: String::from_str(sender),
            token_uri: Some(url),
            extension: extension,
        },
    )
}

/// The record once minted to `owner` at time `now`.
pub open spec fn minted_model(m: LandNftModel, owner: Seq<char>, now: u64) -> LandNftModel {
    LandNftModel { status: Some(LAND_NFT_STATUS_MINTED), owner: owner, date_updated: now, ..m }
}

/// A transfer of `amount` in `denom` to a treasury.
#[derive(Debug)]
pub struct TreasuryPayment {
    pub to_address: String,
    pub amount: u64,
    pub denom: String,
}

/// The denomination of a payment: the record's, or the default one.
pub open spec fn denom_text(denom: Option<Seq<char>>) -> Seq<char> {
    match denom {
        Some(d) => d,
        None => DEFAULT_PRICE_DENOM@,
    }
}

/// `floor(price * percentage / 100)`.
pub open spec fn share_of(price: nat, percentage: nat) -> nat {
    price * percentage / 100
}

/// The total of the shares of the first `n` treasuries.
pub open spec fn leading_total(price: nat, ts: Seq<Treasury>, n: int) -> nat
    decreases n,
{
    if n <= 0 {
        0
    } else {
        leading_total(price, ts, n - 1) + share_of(price, ts[n - 1].percentage as nat)
    }
}

/// The total percentage of the first `n` treasuries.
pub open spec fn percent_total(ts: Seq<Treasury>, n: int) -> nat
    decreases n,
{
    if n <= 0 {
        0
    } else {
        percent_total(ts, n - 1) + ts[n - 1].percentage as nat
    }
}

/// The amount paid to treasury `i`: its share of the price, rounded down, except for the last,
/// which receives what the others leave.
pub open spec fn leg_amount(price: nat, ts: Seq<Treasury>, i: int) -> int {
    if i < ts.len() - 1 {
        share_of(price, ts[i].percentage as nat) as int
    } else {
        price - leading_total(price, ts, ts.len() - 1)
    }
}

/// The total paid to the first `n` treasuries.
pub open spec fn legs_total(price: nat, ts: Seq<Treasury>, n: int) -> int
    decreases n,
{
    if n <= 0 {
        0
    } else {
        legs_total(price, ts, n - 1) + leg_amount(price, ts, n - 1)
    }
}

/// Some treasury's leg of the split of `price` would be zero.
pub open spec fn has_empty_leg(price: nat) -> bool {
    exists|i: int| 0 <= i < treasury_list().len() && leg_amount(price, treasury_list(), i) == 0
}

/// `ps` pays each treasury, in order, its leg of `price` in the denomination.
pub open spec fn is_treasury_split(ps: Seq<TreasuryPayment>, price: nat, denom: Option<Seq<char>>) -> bool {
    &&& ps.len() == treasury_list().len()
    &&& forall|i: int|
        #![trigger ps[i]]
        0 <= i < ps.len() ==> {
            &&& ps[i].to_address@ == treasury_list()[i].wallet_address@
            &&& ps[i].amount == leg_amount(price, treasury_list(), i)
            &&& ps[i].denom@ == denom_text(denom)
        }
}

/// A transfer of `amount` to `wallet_address`; a zero amount is refused.
pub fn pay_treasury(wallet_address: &str, amount: u64, denom: &Option<String>) -> (r: Result<
    TreasuryPayment,
    ContractError,
>)
    ensures
        amount == 0 ==> r == Err::<TreasuryPayment, ContractError>(ContractError::InvalidAmount {}),
        amount > 0 ==> (r matches Ok(p) && p.to_address@ == wallet_address@ && p.amount == amount
            && p.denom@ == denom_text(opt_str(*denom))),
{
    if amount == 0 {
        return Err(ContractError::InvalidAmount {});
    }
    let denom = match denom {
        Some(d) => d.clone(),
        None => String::from_str(DEFAULT_PRICE_DENOM),
    };
    Ok(TreasuryPayment { to_address: String::from_str(wallet_address), amount: amount, denom: denom })
}

proof fn lemma_share_bound(price: nat, percentage: nat)
    ensures
        share_of(price, percentage) * 100 <= price * percentage,
{
    assert((price * percentage / 100) * 100 <= price * percentage) by (nonlinear_arith);
}

proof fn lemma_treasury_percentages()
    ensures
        treasury_list().len() == 2,
        percent_total(treasury_list(), 1) == 95,
{
    reveal_with_fuel(percent_total, 3);
}

/// Splits `total_amount` over the treasuries: each but the last receives its percentage of the
/// price rounded down, and the last receives the rest. Fails if any leg would be zero.
pub fn pay_treasuries(total_amount: u64, denom: Option<String>) -> (r: Result<
    Vec<TreasuryPayment>,
    ContractError,
>)
    ensures
        has_empty_leg(total_amount as nat) ==> r == Err::<Vec<TreasuryPayment>, ContractError>(
            ContractError::InvalidAmount {},
        ),
        !has_empty_leg(total_amount as nat) ==> (r matches Ok(ps) && is_treasury_split(
            ps@,
            total_amount as nat,
            opt_str(denom),
        )),
{
    let ts = treasuries();
    let n = ts.len();
    let ghost price = total_amount as nat;
    proof {
        lemma_treasury_percentages();
    }
    let mut paid: u64 = 0;
    let mut out: Vec<TreasuryPayment> = Vec::new();
    let mut i: usize = 0;
    while i < n
        invariant
            ts@ == treasury_list(),
            n == ts@.len(),
            n == 2,
            percent_total(ts@, 1) == 95,
            i <= n,
            price == total_amount as nat,
            i < n ==> paid == leading_total(price, ts@, i as int),
            i < n ==> paid * 100 <= price * percent_total(ts@, i as int),
            i < n ==> paid <= price,
            i < n ==> percent_total(ts@, i as int) <= 95,
            out@.len() == i,
            forall|j: int| 0 <= j < i ==> leg_amount(price, ts@, j) != 0,
            forall|j: int|
                0 <= j < i ==> {
                    &&& #[trigger] out@[j].to_address@ == ts@[j].wallet_address@
                    &&& out@[j].amount == leg_amount(price, ts@, j)
                    &&& out@[j].denom@ == denom_text(opt_str(denom))
                },
        decreases n - i,
    {
        let t = &ts[i];
        let amount: u64 = if i + 1 < n {
            let pct = t.percentage;
            proof {
                lemma_share_bound(price, pct as nat);
                assert(percent_total(ts@, i + 1) == percent_total(ts@, i as int) + pct);
                assert(percent_total(ts@, i + 1) <= 95);
                assert((paid + share_of(price, pct as nat)) * 100 <= price * 95) by (nonlinear_arith)
                    requires
                        paid * 100 <= price * percent_total(ts@, i as int),
                        share_of(price, pct as nat) * 100 <= price * pct,
                        percent_total(ts@, i as int) + pct <= 95,
                ;
                assert(paid + share_of(price, pct as nat) <= price) by (nonlinear_arith)
                    requires
                        (paid + share_of(price, pct as nat)) * 100 <= price * 95,
                ;
            }
            let s = ((total_amount as u128) * (pct as u128) / 100) as u64;
            assert(s == share_of(price, pct as nat));
            s
        } else {
            total_amount - paid
        };
        assert(amount as int == leg_amount(price, ts@, i as int));
        let p = match pay_treasury(t.wallet_address, amount, &denom) {
            Ok(p) => p,
            Err(e) => {
                assert(leg_amount(price, treasury_list(), i as int) == 0);
                assert(has_empty_leg(price));
                return Err(e);
            },
        };
        if i + 1 < n {
            paid = paid + amount;
        }
        out.push(p);
        i = i + 1;
    }
    assert(is_treasury_split(out@, price, opt_str(denom)));
    Ok(out)
}

/// Settles a mint after the token subsystem answered: on its failure the record is left alone
/// and its message is returned; on success the record is marked minted to `new_owner` and the
/// price is split over the treasuries.
pub fn complete_mint_land_nft(
    land: LandNft,
    new_owner: String,
    now: u64,
    minted: Result<(), String>,
) -> (r: Result<(LandNft, Vec<TreasuryPayment>), ContractError>)
    ensures
        minted is Err ==> r == Err::<(LandNft, Vec<TreasuryPayment>), ContractError>(
            ContractError::CustomErrorMesg { message: minted->Err_0 },
        ),
        minted is Ok && has_empty_leg(land.price as nat) ==> r == Err::<
            (LandNft, Vec<TreasuryPayment>),
            ContractError,
        >(ContractError::InvalidAmount {}),
        minted is Ok && !has_empty_leg(land.price as nat) ==> (r matches Ok((l, ps)) && l@
            == minted_model(land@, new_owner@, now) && is_treasury_split(
            ps@,
            land.price as nat,
            land@.price_denom,
        )),
{
    match minted {
        Err(message) => Err(ContractError::CustomErrorMesg { message: message }),
        Ok(()) => {
            let denom = clone_opt_string(&land.price_denom);
            assert(opt_str(denom) == land@.price_denom);
            let payments = match pay_treasuries(land.price, denom) {
                Ok(ps) => ps,
                Err(e) => {
                    return Err(e);
                },
            };

            let mut l = land;
            l.status = Some(LAND_NFT_STATUS_MINTED);
            l.owner = new_owner;
            l.date_updated = now;
            Ok((l, payments))
        },
    }
}

/// A freshly created record is unminted, and its creation and update times coincide.
pub proof fn lemma_created_record_is_fresh(
    key: Option<Seq<char>>,
    name: Option<Seq<char>>,
    description: Option<Seq<char>>,
    owner: Seq<char>,
    total_size: u64,
    each_size: u64,
    size_unit: Option<Seq<char>>,
    addr: Seq<char>,
    total_lands: u16,
    price: u64,
    price_denom: Option<Seq<char>>,
    now: u64,
)
    ensures
        ({
            let m = new_land_model(
                key,
                name,
                description,
                owner,
                total_size,
                each_size,
                size_unit,
                addr,
                total_lands,
                price,
                price_denom,
                now,
            );
            &&& m.status is None
            &&& m.date_created == m.date_updated
            &&& m.key == key
        }),
{
}

/// Two records created one after the other get different keys: the second create reads the
/// counter that the first one stored, draws a larger value, and distinct values give distinct
/// keys. (Should the counter be lost and restart, a key that is still taken is refused by
/// `add_land_nft_by_key` with `AlreadyExists`.)
pub proof fn lemma_sequential_creates_distinct_keys(stored: Option<IndexCounter>, saved: IndexCounter)
    requires
        saved.spec_index() == next_index(stored),
    ensures
        next_index(Some(saved)) > next_index(stored),
        land_key(next_index(Some(saved))) != land_key(next_index(stored)),
{
    if land_key(next_index(Some(saved))) == land_key(next_index(stored)) {
        lemma_land_key_injective(next_index(Some(saved)), next_index(stored));
    }
}

/// Minting is one-way: once a record has been minted, minting it again fails (with
/// `AlreadyMinted` for an allowed caller), and so does every change to it, so the owner and
/// status that the first mint set are never written again.
pub proof fn lemma_minted_record_is_final(
    sender: Seq<char>,
    land: LandNft,
    minted: LandNft,
    new_owner: Seq<char>,
    now: u64,
    key: String,
)
    requires
        land.key is Some,
        minted@ == minted_model(land@, new_owner, now),
    ensures
        mint_error(sender, Some(minted)) is Some,
        is_admin(sender) ==> mint_error(sender, Some(minted)) == Some(
            ContractError::AlreadyMinted { key: minted.key.unwrap() },
        ),
        change_error(sender, key, Some(minted)) is Some,
        is_admin(sender) ==> change_error(sender, key, Some(minted)) == Some(
            ContractError::AlreadyMinted { key: key },
        ),
{
    assert(opt_str(minted.key) == opt_str(land.key));
}

/// The legs of the treasury split add up to the price exactly, and none is negative.
pub proof fn lemma_treasury_split_total(price: nat)
    ensures
        legs_total(price, treasury_list(), treasury_list().len() as int) == price,
        forall|i: int| 0 <= i < treasury_list().len() ==> leg_amount(price, treasury_list(), i) >= 0,
{
    let ts = treasury_list();
    lemma_treasury_percentages();
    reveal_with_fuel(legs_total, 3);
    reveal_with_fuel(leading_total, 2);
    assert(price * 95 / 100 <= price) by (nonlinear_arith);
    assert(leading_total(price, ts, 1) == share_of(price, 95));
}

} // verus!
