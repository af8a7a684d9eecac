use land_nft::decimal::to_decimal;
use land_nft::get::{
    find_land_nft, get_all_land_nfts, get_all_land_nfts_by, get_count_of_land_nfts_by,
    get_land_nft, get_land_nft_by_index, key_lt, page_limit, DEFAULT_LIMIT, MAX_LIMIT,
};
use land_nft::ins::{
    add_land_nft, add_land_nft_by_key, add_land_nft_media_type, authorize, complete_mint_land_nft,
    ins_land_nft_for_minting, is_allowed_admin, mint_land_nft, pay_treasuries, pay_treasury,
    remove_land_nft, remove_land_nft_media_type, remove_land_nft_royalty, update_land_nft,
    ADMIN_WALLET_A, ADMIN_WALLET_B,
};
use land_nft::state::{
    treasuries, Attribute, TREASURY_WALLET_FEE, TREASURY_WALLET_MAIN, IndexCounter, LandNft, LandNftMediaType, LandNftRoyalty,
    MEDIA_TYPE_ANIMATION, MEDIA_TYPE_IMAGE, MEDIA_TYPE_VIDEO,
};
use land_nft::ContractError;

const NOW: u64 = 1_571_797_419_879_305_533;
const ADMIN: &str = "terra19c4jcex5zkdky00qqjpu5u5usvjk7wklxsajp3";
const STRANGER: &str = "terra1qchccaxyrzk8a4yxu6y2vwzc48jak8qmqm9qtg";

fn parcel(key: &str) -> LandNft {
    LandNft::new(
        Some(key.to_string()),
        None,
        None,
        ADMIN.to_string(),
        12500,
        50,
        Some("m2".to_string()),
        "Lot 7".to_string(),
        250,
        35600,
        None,
        NOW,
    )
}

fn media(url: &str, media_type: u8, is_default: bool) -> LandNftMediaType {
    LandNftMediaType { url: url.to_string(), media_type, is_default, date_updated: None }
}

fn royalty(wallet: &str, royalty: u16) -> LandNftRoyalty {
    LandNftRoyalty { creator_wallet: wallet.to_string(), index: 0, royalty, date_updated: None }
}

#[test]
fn decimal_rendering() {
    assert_eq!(to_decimal(0), "0");
    assert_eq!(to_decimal(7), "7");
    assert_eq!(to_decimal(10), "10");
    assert_eq!(to_decimal(35600), "35600");
    assert_eq!(to_decimal(u64::MAX), "18446744073709551615");
}

#[test]
fn record_keys() {
    assert_eq!(LandNft::key(1), "land_nft_1");
    assert_eq!(LandNft::key(12), "land_nft_12");
    assert_eq!(LandNft::key(u32::MAX), "land_nft_4294967295");
}

#[test]
fn counter_starts_at_one_and_advances() {
    let mut c = IndexCounter::new();
    assert_eq!(c.get_index(), 1);
    c.increment();
    assert_eq!(c.get_index(), 2);
}

#[test]
fn sequential_creates_get_distinct_keys() {
    let (c1, k1) = add_land_nft(ADMIN, None).unwrap();
    assert_eq!(k1, "land_nft_1");
    let (c2, k2) = add_land_nft(ADMIN, Some(c1)).unwrap();
    assert_eq!(k2, "land_nft_2");
    let (_, k3) = add_land_nft(ADMIN, Some(c2)).unwrap();
    assert_eq!(k3, "land_nft_3");
    assert_ne!(k1, k2);
}

#[test]
fn restarted_counter_cannot_overwrite() {
    // The counter was lost: the key restarts at 1, which is still taken.
    let (_, key) = add_land_nft(ADMIN, None).unwrap();
    let r = add_land_nft_by_key(
        key.clone(),
        Some(parcel(&key)),
        ADMIN.to_string(),
        None,
        None,
        1,
        1,
        None,
        "x".to_string(),
        1,
        1,
        None,
        NOW,
    );
    assert_eq!(r.unwrap_err(), ContractError::AlreadyExists { key: "land_nft_1".to_string() });
}

#[test]
fn create_unauthorized() {
    assert_eq!(add_land_nft(STRANGER, None).unwrap_err(), ContractError::Unauthorized {});
}

#[test]
fn allow_list() {
    assert!(is_allowed_admin(ADMIN_WALLET_A));
    assert!(is_allowed_admin(ADMIN_WALLET_B));
    assert!(is_allowed_admin(ADMIN));
    assert!(!is_allowed_admin(STRANGER));
    assert!(!is_allowed_admin(""));
    assert_eq!(authorize(STRANGER), Err(ContractError::Unauthorized {}));
    assert_eq!(authorize(ADMIN), Ok(()));
}

#[test]
fn created_record_is_fresh() {
    let (_, key) = add_land_nft(ADMIN, None).unwrap();
    let land = add_land_nft_by_key(
        key.clone(),
        None,
        ADMIN.to_string(),
        None,
        Some("Hill lots".to_string()),
        12500,
        50,
        None,
        "Lot 7".to_string(),
        250,
        35600,
        None,
        NOW,
    )
    .unwrap();
    let got = get_land_nft(Some(land)).unwrap().land_nft;
    assert_eq!(got.status, None);
    assert_eq!(got.date_created, got.date_updated);
    assert_eq!(got.key, Some("land_nft_1".to_string()));
    assert_eq!(got.name, Some("Neworld Land NFT #land_nft_1".to_string()));
    assert_eq!(got.description, Some("Hill lots".to_string()));
    assert_eq!(got.price_denom, Some("uusd".to_string()));
    assert_eq!(got.symbol, "neworld-land-nft");
    assert_eq!(got.each_size, Some(50));
    assert_eq!(got.addr, Some("Lot 7".to_string()));
    assert!(got.all_media_types().is_none());
}

#[test]
fn default_record() {
    let l = LandNft::default(NOW);
    assert_eq!(l.key, None);
    assert_eq!(l.name, Some("Neworld Land NFT #unknown.key".to_string()));
    assert_eq!(l.owner, "xxxxx");
}

#[test]
fn media_add_is_idempotent_by_url() {
    let mut l = parcel("land_nft_1");
    l.add_media_type(media("a", MEDIA_TYPE_IMAGE, false), NOW);
    l.add_media_type(media("b", MEDIA_TYPE_IMAGE, true), NOW);
    l.add_media_type(media("c", MEDIA_TYPE_VIDEO, false), NOW);
    l.add_media_type(media("a", MEDIA_TYPE_VIDEO, true), NOW + 5);
    assert_eq!(l.media_type_count(), 3);
    let all = l.all_media_types().unwrap();
    assert_eq!(all[0].url, "a");
    assert_eq!(all[0].media_type, MEDIA_TYPE_IMAGE);
    assert!(!all[0].is_default);
    // The time is stamped even when nothing was added.
    assert_eq!(l.date_updated, NOW + 5);
}

#[test]
fn remove_absent_is_noop() {
    let mut l = parcel("land_nft_1");
    l.add_media_type(media("a", MEDIA_TYPE_IMAGE, false), NOW);
    l.add_royalty(royalty(STRANGER, 50), NOW);
    l.remove_media_type("zzz".to_string(), NOW);
    l.remove_royalty("nobody".to_string(), NOW);
    assert_eq!(l.media_type_count(), 1);
    assert_eq!(l.royalty_count(), 1);

    let key = "land_nft_1".to_string();
    let l = remove_land_nft_media_type(ADMIN, &key, Some(l), "zzz".to_string(), NOW).unwrap();
    let l = remove_land_nft_royalty(ADMIN, &key, Some(l), "nobody".to_string(), NOW).unwrap();
    assert_eq!(l.media_type_count(), 1);
    assert_eq!(l.royalty_count(), 1);
    // A record without any sub-collection keeps none.
    let bare = remove_land_nft_media_type(ADMIN, &key, Some(parcel(&key)), "a".to_string(), NOW).unwrap();
    assert!(bare.all_media_types().is_none());
}

#[test]
fn remove_present_removes_first_match() {
    let mut l = parcel("land_nft_1");
    l.add_media_type(media("a", MEDIA_TYPE_IMAGE, false), NOW);
    l.add_media_type(media("b", MEDIA_TYPE_IMAGE, false), NOW);
    l.remove_media_type("a".to_string(), NOW);
    let all = l.all_media_types().unwrap();
    assert_eq!(all.len(), 1);
    assert_eq!(all[0].url, "b");
    l.add_royalty(royalty("w1", 1), NOW);
    l.add_royalty(royalty("w1", 2), NOW);
    l.add_royalty(royalty("w2", 3), NOW);
    assert_eq!(l.royalty_count(), 2);
    assert_eq!(l.all_royalties().unwrap()[0].royalty, 1);
    l.remove_royalty("w1".to_string(), NOW);
    assert_eq!(l.all_royalties().unwrap()[0].creator_wallet, "w2");
}

#[test]
fn other_attributes() {
    let mut l = parcel("land_nft_1");
    let attr = |t: &str, v: Option<&str>| Attribute {
        display_type: None,
        attribute_type: t.to_string(),
        value: v.map(|s| s.to_string()),
    };
    l.add_other_attribute(attr("soil", Some("clay")));
    l.add_other_attribute(attr("soil", Some("sand")));
    l.add_other_attribute(attr("zone", None));
    assert_eq!(l.other_attributes_count(), 2);
    assert_eq!(l.all_other_attributes().unwrap()[0].value, Some("clay".to_string()));
    assert_eq!(l.date_updated, NOW);
    l.remove_other_attribute("soil".to_string());
    assert_eq!(l.other_attributes_count(), 1);
}

#[test]
fn default_media_is_first_flagged() {
    let mut l = parcel("land_nft_1");
    assert!(l.default_media_type_of(MEDIA_TYPE_IMAGE).is_none());
    l.add_media_type(media("v", MEDIA_TYPE_VIDEO, true), NOW);
    l.add_media_type(media("i1", MEDIA_TYPE_IMAGE, false), NOW);
    l.add_media_type(media("i2", MEDIA_TYPE_IMAGE, true), NOW);
    l.add_media_type(media("i3", MEDIA_TYPE_IMAGE, true), NOW);
    assert_eq!(l.default_media_type_url(MEDIA_TYPE_IMAGE), Some("i2".to_string()));
    assert_eq!(l.default_media_type_url(MEDIA_TYPE_VIDEO), Some("v".to_string()));
    assert_eq!(l.default_media_type_url(MEDIA_TYPE_ANIMATION), None);
}

#[test]
fn metadata_traits() {
    let mut l = parcel("land_nft_1");
    l.add_other_attribute(Attribute {
        display_type: Some("Soil".to_string()),
        attribute_type: "soil".to_string(),
        value: None,
    });
    let t = l.to_metadata_traits();
    let view: Vec<(Option<String>, String, String)> =
        t.into_iter().map(|t| (t.display_type, t.trait_type, t.value)).collect();
    assert_eq!(
        view,
        vec![
            (Some("Total Size".to_string()), "total-size".to_string(), "12500 m2".to_string()),
            (Some("Unit Size".to_string()), "unit-size".to_string(), "50 m2".to_string()),
            (Some("Address".to_string()), "address".to_string(), "Lot 7".to_string()),
            (Some("Total Number Of Lands".to_string()), "total-lands".to_string(), "250".to_string()),
            (Some("Symbol".to_string()), "symbol".to_string(), "neworld-land-nft".to_string()),
            (Some("Soil".to_string()), "soil".to_string(), "N/A".to_string()),
        ]
    );
    let mut bare = parcel("k");
    bare.each_size = None;
    bare.addr = None;
    bare.size_unit = Some("acre".to_string());
    let t = bare.to_metadata_traits();
    assert_eq!(t.len(), 3);
    assert_eq!(t[0].value, "12500 acre");
}

#[test]
fn update_keeps_collections_and_creation_time() {
    let key = "land_nft_1".to_string();
    let mut l = parcel(&key);
    l.add_media_type(media("a", MEDIA_TYPE_IMAGE, true), NOW);
    let u = update_land_nft(
        ADMIN,
        key.clone(),
        Some(l),
        Some("New".to_string()),
        None,
        1,
        2,
        None,
        "Lot 9".to_string(),
        3,
        4,
        Some("uluna".to_string()),
        NOW + 10,
    )
    .unwrap();
    assert_eq!(u.name, Some("New".to_string()));
    assert_eq!(u.description, Some("Neworld Land NFT #land_nft_1".to_string()));
    assert_eq!(u.total_size, 1);
    assert_eq!(u.price, 4);
    assert_eq!(u.price_denom, Some("uluna".to_string()));
    assert_eq!(u.media_type_count(), 1);
    assert_eq!(u.date_created, NOW);
    assert_eq!(u.date_updated, NOW + 10);
}

#[test]
fn change_errors() {
    let key = "land_nft_1".to_string();
    let upd = |sender: &str, stored: Option<LandNft>| {
        update_land_nft(sender, key.clone(), stored, None, None, 1, 1, None, "a".to_string(), 1, 1, None, NOW)
    };
    assert_eq!(upd(STRANGER, Some(parcel(&key))).unwrap_err(), ContractError::Unauthorized {});
    assert_eq!(upd(STRANGER, None).unwrap_err(), ContractError::Unauthorized {});
    assert_eq!(upd(ADMIN, None).unwrap_err(), ContractError::InvalidLandNft {});
    let mut minted = parcel(&key);
    minted.status = Some(1);
    assert_eq!(
        upd(ADMIN, Some(minted)).unwrap_err(),
        ContractError::AlreadyMinted { key: key.clone() }
    );
    assert_eq!(remove_land_nft(ADMIN, &key, None), Err(ContractError::InvalidLandNft {}));
    assert_eq!(remove_land_nft(ADMIN, &key, Some(parcel(&key))), Ok(()));
    assert_eq!(
        add_land_nft_media_type(STRANGER, &key, Some(parcel(&key)), media("a", 1, true), NOW)
            .unwrap_err(),
        ContractError::Unauthorized {}
    );
}

#[test]
fn mint_builds_metadata_from_default_media() {
    let key = "land_nft_1".to_string();
    let mut l = parcel(&key);
    for (i, u) in ["img1", "img2", "img3"].iter().enumerate() {
        l = add_land_nft_media_type(ADMIN, &key, Some(l), media(u, MEDIA_TYPE_IMAGE, i == 1), NOW)
            .unwrap();
    }
    l = add_land_nft_media_type(ADMIN, &key, Some(l), media("anim", MEDIA_TYPE_ANIMATION, true), NOW)
        .unwrap();
    let stored = Some(l);
    let req = mint_land_nft(ADMIN, &stored, Some("https://x.io".to_string())).unwrap();
    assert_eq!(req.extension.image, Some("img2".to_string()));
    assert_eq!(req.extension.youtube_url, None);
    assert_eq!(req.extension.animation_url, Some("anim".to_string()));
    assert_eq!(req.extension.external_url, Some("https://x.io/land_nft_1".to_string()));
    assert_eq!(req.token_uri, Some("https://x.io/land_nft_1".to_string()));
    assert_eq!(req.extension.name, Some("Neworld Land NFT #land_nft_1".to_string()));
    assert_eq!(req.owner, ADMIN);
}

#[test]
fn mint_twice_is_refused() {
    let key = "land_nft_1".to_string();
    let stored = Some(parcel(&key));
    assert!(mint_land_nft(ADMIN, &stored, None).is_ok());
    let (minted, _) =
        complete_mint_land_nft(stored.unwrap(), ADMIN_WALLET_A.to_string(), NOW + 1, Ok(())).unwrap();
    assert_eq!(minted.owner, ADMIN_WALLET_A);
    let again = Some(minted);
    assert_eq!(
        mint_land_nft(ADMIN, &again, None).unwrap_err(),
        ContractError::AlreadyMinted { key: key.clone() }
    );
    let minted = again.unwrap();
    assert_eq!(minted.status, Some(1));
    assert_eq!(minted.owner, ADMIN_WALLET_A);
}

#[test]
fn mint_errors() {
    assert_eq!(mint_land_nft(STRANGER, &None, None).unwrap_err(), ContractError::Unauthorized {});
    assert_eq!(mint_land_nft(ADMIN, &None, None).unwrap_err(), ContractError::InvalidLandNft {});
    let keyless = Some(LandNft::default(NOW));
    assert_eq!(mint_land_nft(ADMIN, &keyless, None).unwrap_err(), ContractError::InvalidLandNft {});
    assert_eq!(
        ins_land_nft_for_minting(STRANGER, &keyless).unwrap_err(),
        ContractError::Unauthorized {}
    );
    assert_eq!(ins_land_nft_for_minting(ADMIN, &None).unwrap_err(), ContractError::InvalidLandNft {});
    let r = complete_mint_land_nft(parcel("k"), ADMIN.to_string(), NOW, Err("boom".to_string()));
    assert_eq!(r.unwrap_err(), ContractError::CustomErrorMesg { message: "boom".to_string() });
    let mut cheap = parcel("k");
    cheap.price = 1;
    let r = complete_mint_land_nft(cheap, ADMIN.to_string(), NOW, Ok(()));
    assert_eq!(r.unwrap_err(), ContractError::InvalidAmount {});
}

#[test]
fn treasury_split_of_35600() {
    let ps = pay_treasuries(35600, Some("uusd".to_string())).unwrap();
    assert_eq!(ps.len(), 2);
    assert_eq!(ps[0].to_address, TREASURY_WALLET_MAIN);
    assert_eq!(ps[0].amount, 33820);
    assert_eq!(ps[1].to_address, TREASURY_WALLET_FEE);
    assert_eq!(ps[1].amount, 1780);
    assert_eq!(ps[0].amount + ps[1].amount, 35600);
    assert_eq!(ps[0].denom, "uusd");
}

#[test]
fn treasury_split_remainder_goes_last() {
    let ps = pay_treasuries(99, None).unwrap();
    assert_eq!(ps[0].amount, 94);
    assert_eq!(ps[1].amount, 5);
    assert_eq!(ps[1].denom, "uusd");
    let ps = pay_treasuries(u64::MAX, None).unwrap();
    assert_eq!(ps[0].amount as u128 + ps[1].amount as u128, u64::MAX as u128);
    assert_eq!(treasuries().iter().map(|t| t.percentage as u32).sum::<u32>(), 100);
}

#[test]
fn treasury_split_rejects_empty_leg() {
    assert_eq!(pay_treasuries(0, None).unwrap_err(), ContractError::InvalidAmount {});
    assert_eq!(pay_treasuries(1, None).unwrap_err(), ContractError::InvalidAmount {});
    assert_eq!(pay_treasuries(100, None).unwrap()[1].amount, 5);
    assert_eq!(pay_treasury("w", 0, &None).unwrap_err(), ContractError::InvalidAmount {});
    let p = pay_treasury("w", 3, &Some("uluna".to_string())).unwrap();
    assert_eq!((p.to_address.as_str(), p.amount, p.denom.as_str()), ("w", 3, "uluna"));
}

#[test]
fn page_limits() {
    assert_eq!(page_limit(None), DEFAULT_LIMIT as usize);
    assert_eq!(page_limit(Some(0)), 1);
    assert_eq!(page_limit(Some(5)), 5);
    assert_eq!(page_limit(Some(20)), 20);
    assert_eq!(page_limit(Some(1000)), MAX_LIMIT as usize);
}

fn store(n: u32) -> Vec<(String, LandNft)> {
    let mut keys: Vec<String> = (1..=n).map(LandNft::key).collect();
    keys.sort();
    keys.into_iter()
        .map(|k| {
            let mut l = parcel(&k);
            l.key = None;
            (k, l)
        })
        .collect()
}

#[test]
fn key_order_is_bytewise() {
    assert!(key_lt(&"land_nft_10".to_string(), &"land_nft_2".to_string()));
    assert!(key_lt(&"land".to_string(), &"land_nft_1".to_string()));
    assert!(!key_lt(&"b".to_string(), &"b".to_string()));
    assert!(!key_lt(&"land_nft_3".to_string(), &"land_nft_2".to_string()));
}

#[test]
fn pagination_never_repeats_or_skips() {
    let all = store(25);
    let mut seen: Vec<String> = Vec::new();
    let mut cursor: Option<String> = None;
    loop {
        let page = get_all_land_nfts(all.clone(), cursor.clone(), Some(7));
        assert!(page.land_nfts.len() <= 7);
        if page.land_nfts.is_empty() {
            break;
        }
        for l in &page.land_nfts {
            seen.push(l.key.clone().unwrap());
        }
        cursor = page.land_nfts.last().unwrap().key.clone();
    }
    let expected: Vec<String> = all.iter().map(|(k, _)| k.clone()).collect();
    assert_eq!(seen, expected);

    assert_eq!(get_all_land_nfts(all.clone(), None, None).land_nfts.len(), 10);
    assert_eq!(get_all_land_nfts(all.clone(), None, Some(0)).land_nfts.len(), 1);
    assert_eq!(get_all_land_nfts(all.clone(), None, Some(500)).land_nfts.len(), 20);
    let tail = get_all_land_nfts(all.clone(), Some("land_nft_8".to_string()), None);
    assert_eq!(tail.land_nfts.len(), 1);
    assert_eq!(tail.land_nfts[0].key, Some("land_nft_9".to_string()));
}

#[test]
fn listing_by_status() {
    let mut all = store(4);
    all[1].1.status = Some(1);
    all[3].1.status = Some(1);
    let minted = get_all_land_nfts_by(all.clone(), Some(1), None, None);
    let keys: Vec<String> = minted.land_nfts.iter().map(|l| l.key.clone().unwrap()).collect();
    assert_eq!(keys, vec!["land_nft_2".to_string(), "land_nft_4".to_string()]);
    let unminted = get_all_land_nfts_by(all.clone(), None, None, Some(1));
    assert_eq!(unminted.land_nfts.len(), 1);
    assert_eq!(unminted.land_nfts[0].key, Some("land_nft_1".to_string()));

    let records: Vec<LandNft> = all.into_iter().map(|(_, l)| l).collect();
    assert_eq!(get_count_of_land_nfts_by(&records, Some(1)).count, 2);
    assert_eq!(get_count_of_land_nfts_by(&records, None).count, 2);
    assert_eq!(get_count_of_land_nfts_by(&records, Some(2)).count, 0);
    let second = get_land_nft_by_index(&records, Some(1), 1).land_nft.unwrap();
    assert_eq!(second.status, Some(1));
    assert!(get_land_nft_by_index(&records, Some(1), 2).land_nft.is_none());
    assert!(find_land_nft(None).land_nft.is_none());
}

#[test]
fn queries_on_missing_record() {
    assert_eq!(get_land_nft(None).unwrap_err(), ContractError::InvalidLandNft {});
    assert_eq!(
        land_nft::get::get_land_nft_royalties(None).unwrap_err(),
        ContractError::InvalidLandNft {}
    );
    assert_eq!(
        land_nft::get::get_land_nft_media_types(None, 1).unwrap_err(),
        ContractError::InvalidLandNft {}
    );
}
