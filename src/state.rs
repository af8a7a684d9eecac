//! The parcel record, its sub-collections and the record-key counter.
use vstd::prelude::*;
use crate::collection::{Keyed, with_added, with_removed, add_unique, remove_identity};
use crate::decimal::{decimal, push_decimal, lemma_decimal_injective};

verus! {

/// A payee of the fixed treasury split, with its share of the price in percent.
pub struct Treasury {
    pub wallet_address: &'static str,
    pub percentage: u8,
}

/// A free-form display attribute; entries are told apart by `attribute_type`.
#[derive(Debug)]
pub struct Attribute {
    pub display_type: Option<String>,
    pub attribute_type: String,
    pub value: Option<String>,
}

pub const MEDIA_TYPE_IMAGE: u8 = 1;

pub const MEDIA_TYPE_VIDEO: u8 = 2;

pub const MEDIA_TYPE_ANIMATION: u8 = 3;

/// A royalty share; entries are told apart by `creator_wallet`. Times are nanoseconds since
/// the epoch.
#[derive(Debug)]
pub struct LandNftRoyalty {
    pub creator_wallet: String,
    pub index: u8,
    pub royalty: u16,
    pub date_updated: Option<u64>,
}

/// A media reference; entries are told apart by `url`.
#[derive(Debug)]
pub struct LandNftMediaType {
    pub url: String,
    pub media_type: u8,
    pub is_default: bool,
    pub date_updated: Option<u64>,
}

pub const DEFAULT_PRICE_DENOM: &'static str = "uusd";

pub const LAND_NFT_KEY_PREFIX: &'static str = "land_nft";

pub const LAND_NFT_STATUS_MINTED: u8 = 1;

pub const LAND_NFT_STATUS_TRANSFERRED: u8 = 2;

pub const DEFAULT_LAND_NFT_SYMBOL: &'static str = "neworld-land-nft";

/// The title used for a name or description that was not given.
pub const DEFAULT_TITLE_PREFIX: &'static str = "Neworld Land NFT #";

/// Stands for the key in a default title when the record has none.
pub const UNKNOWN_KEY: &'static str = "unknown.key";

pub open spec fn opt_str(o: Option<String>) -> Option<Seq<char>> {
    match o {
        Some(s) => Some(s@),
        None => None,
    }
}

pub open spec fn opt_seq<T>(o: Option<Vec<T>>) -> Option<Seq<T>> {
    match o {
        Some(v) => Some(v@),
        None => None,
    }
}

/// The entries of a sub-collection; an absent one holds none.
pub open spec fn entries<T>(o: Option<Seq<T>>) -> Seq<T> {
    match o {
        Some(s) => s,
        None => Seq::empty(),
    }
}

/// A sub-collection after removing identity `id`; an absent one stays absent.
pub open spec fn removed_from<T: Keyed>(o: Option<Seq<T>>, id: Seq<char>) -> Option<Seq<T>> {
    match o {
        Some(s) => Some(with_removed(s, id)),
        None => None,
    }
}

impl Keyed for Attribute {
    open spec fn identity(&self) -> Seq<char> {
        self.attribute_type@
    }

    fn identity_ref(&self) -> (r: &String) {
        &self.attribute_type
    }
}

impl Keyed for LandNftRoyalty {
    open spec fn identity(&self) -> Seq<char> {
        self.creator_wallet@
    }

    fn identity_ref(&self) -> (r: &String) {
        &self.creator_wallet
    }
}

impl Keyed for LandNftMediaType {
    open spec fn identity(&self) -> Seq<char> {
        self.url@
    }

    fn identity_ref(&self) -> (r: &String) {
        &self.url
    }
}

impl PartialEq for Attribute {
    fn eq(&self, other: &Self) -> (r: bool) {
        self.attribute_type == other.attribute_type
    }
}

impl vstd::std_specs::cmp::PartialEqSpecImpl for Attribute {
    open spec fn obeys_eq_spec() -> bool {
        true
    }

    open spec fn eq_spec(&self, other: &Attribute) -> bool {
        self.attribute_type@ == other.attribute_type@
    }
}

impl PartialEq for LandNftRoyalty {
    fn eq(&self, other: &Self) -> (r: bool) {
        self.creator_wallet == other.creator_wallet
    }
}

impl vstd::std_specs::cmp::PartialEqSpecImpl for LandNftRoyalty {
    open spec fn obeys_eq_spec() -> bool {
        true
    }

    open spec fn eq_spec(&self, other: &LandNftRoyalty) -> bool {
        self.creator_wallet@ == other.creator_wallet@
    }
}

impl PartialEq for LandNftMediaType {
    fn eq(&self, other: &Self) -> (r: bool) {
        self.url == other.url
    }
}

impl vstd::std_specs::cmp::PartialEqSpecImpl for LandNftMediaType {
    open spec fn obeys_eq_spec() -> bool {
        true
    }

    open spec fn eq_spec(&self, other: &LandNftMediaType) -> bool {
        self.url@ == other.url@
    }
}

pub fn clone_opt_string(o: &Option<String>) -> (r: Option<String>)
    ensures
        r == *o,
{
    match o {
        Some(s) => Some(s.clone()),
        None => None,
    }
}

impl Clone for Attribute {
    fn clone(&self) -> (r: Self)
        ensures
            r == *self,
    {
        Attribute {
            display_type: clone_opt_string(&self.display_type),
            attribute_type: self.attribute_type.clone(),
            value: clone_opt_string(&self.value),
        }
    }
}

impl Clone for LandNftRoyalty {
    fn clone(&self) -> (r: Self)
        ensures
            r == *self,
    {
        LandNftRoyalty {
            creator_wallet: self.creator_wallet.clone(),
            index: self.index,
            royalty: self.royalty,
            date_updated: self.date_updated,
        }
    }
}

impl Clone for LandNftMediaType {
    fn clone(&self) -> (r: Self)
        ensures
            r == *self,
    {
        LandNftMediaType {
            url: self.url.clone(),
            media_type: self.media_type,
            is_default: self.is_default,
            date_updated: self.date_updated,
        }
    }
}

pub fn clone_media_types(o: &Option<Vec<LandNftMediaType>>) -> (r: Option<Vec<LandNftMediaType>>)
    ensures
        opt_seq(r) == opt_seq(*o),
{
    match o {
        Some(v) => {
            let c = v.clone();
            assert(c@ =~= v@);
            Some(c)
        },
        None => None,
    }
}

pub fn clone_royalties(o: &Option<Vec<LandNftRoyalty>>) -> (r: Option<Vec<LandNftRoyalty>>)
    ensures
        opt_seq(r) == opt_seq(*o),
{
    match o {
        Some(v) => {
            let c = v.clone();
            assert(c@ =~= v@);
            Some(c)
        },
        None => None,
    }
}

pub fn clone_attributes(o: &Option<Vec<Attribute>>) -> (r: Option<Vec<Attribute>>)
    ensures
        opt_seq(r) == opt_seq(*o),
{
    match o {
        Some(v) => {
            let c = v.clone();
            assert(c@ =~= v@);
            Some(c)
        },
        None => None,
    }
}

/// The counter from which record keys are derived.
#[derive(Debug, PartialEq, Eq, Structural)]
pub struct IndexCounter {
    index: u32,
}

impl IndexCounter {
    pub closed spec fn spec_index(&self) -> u32 {
        self.index
    }

    pub fn new() -> (r: IndexCounter)
        ensures
            r.spec_index() == 1,
    {
        IndexCounter { index: 1 }
    }

    /// A counter that continues from a stored value.
    pub fn with_index(index: u32) -> (r: IndexCounter)
        ensures
            r.spec_index() == index,
    {
        IndexCounter { index: index }
    }

    pub fn increment(&mut self)
        requires
            old(self).spec_index() < u32::MAX,
        ensures
            final(self).spec_index() == old(self).spec_index() + 1,
    {
        self.index += 1;
    }

    pub fn get_index(&self) -> (r: u32)
        ensures
            r == self.spec_index(),
    {
        self.index
    }
}

/// What a parcel record holds, with strings and collections as sequences.
pub struct LandNftModel {
    pub key: Option<Seq<char>>,
    pub name: Option<Seq<char>>,
    pub description: Option<Seq<char>>,
    pub owner: Seq<char>,
    pub total_size: u64,
    pub each_size: Option<u64>,
    pub size_unit: Option<Seq<char>>,
    pub addr: Option<Seq<char>>,
    pub total_lands: u16,
    pub price: u64,
    pub price_denom: Option<Seq<char>>,
    pub status: Option<u8>,
    pub symbol: Seq<char>,
    pub media_types: Option<Seq<LandNftMediaType>>,
    pub royalties: Option<Seq<LandNftRoyalty>>,
    pub other_attributes: Option<Seq<Attribute>>,
    pub date_created: u64,
    pub date_updated: u64,
}

/// A parcel record. Times are nanoseconds since the epoch; `status` is `None` until minted.
#[derive(Debug)]
pub struct LandNft {
    pub key: Option<String>,
    pub name: Option<String>,
    pub description: Option<String>,
    pub owner: String,
    pub total_size: u64,
    pub each_size: Option<u64>,
    pub size_unit: Option<String>,
    pub addr: Option<String>,
    pub total_lands: u16,
    pub price: u64,
    pub price_denom: Option<String>,
    pub status: Option<u8>,
    pub symbol: String,
    pub media_types: Option<Vec<LandNftMediaType>>,
    pub royalties: Option<Vec<LandNftRoyalty>>,
    pub other_attributes: Option<Vec<Attribute>>,
    pub date_created: u64,
    pub date_updated: u64,
}

impl View for LandNft {
    type V = LandNftModel;

    open spec fn view(&self) -> LandNftModel {
        LandNftModel {
            key: opt_str(self.key),
            name: opt_str(self.name),
            description: opt_str(self.description),
            owner: self.owner@,
            total_size: self.total_size,
            each_size: self.each_size,
            size_unit: opt_str(self.size_unit),
            addr: opt_str(self.addr),
            total_lands: self.total_lands,
            price: self.price,
            price_denom: opt_str(self.price_denom),
            status: self.status,
            symbol: self.symbol@,
            media_types: opt_seq(self.media_types),
            royalties: opt_seq(self.royalties),
            other_attributes: opt_seq(self.other_attributes),
            date_created: self.date_created,
            date_updated: self.date_updated,
        }
    }
}

impl Clone for LandNft {
    fn clone(&self) -> (r: Self)
        ensures
            r@ == self@,
    {
        LandNft {
            key: clone_opt_string(&self.key),
            name: clone_opt_string(&self.name),
            description: clone_opt_string(&self.description),
            owner: self.owner.clone(),
            total_size: self.total_size,
            each_size: self.each_size,
            size_unit: clone_opt_string(&self.size_unit),
            addr: clone_opt_string(&self.addr),
            total_lands: self.total_lands,
            price: self.price,
            price_denom: clone_opt_string(&self.price_denom),
            status: self.status,
            symbol: self.symbol.clone(),
            media_types: clone_media_types(&self.media_types),
            royalties: clone_royalties(&self.royalties),
            other_attributes: clone_attributes(&self.other_attributes),
            date_created: self.date_created,
            date_updated: self.date_updated,
        }
    }
}

/// The key of the record with counter value `index`: the prefix, `_`, and `index` in decimal.
pub open spec fn land_key(index: nat) -> Seq<char> {
    LAND_NFT_KEY_PREFIX@ + "_"@ + decimal(index)
}

/// Distinct counter values give distinct keys.
pub proof fn lemma_land_key_injective(a: nat, b: nat)
    requires
        land_key(a) == land_key(b),
    ensures
        a == b,
{
    let p = LAND_NFT_KEY_PREFIX@ + "_"@;
    assert(land_key(a).skip(p.len() as int) =~= decimal(a));
    assert(land_key(b).skip(p.len() as int) =~= decimal(b));
    lemma_decimal_injective(a, b);
}

/// The name or description used when none is given: the title prefix and the key.
pub open spec fn default_title(key: Option<Seq<char>>) -> Seq<char> {
    DEFAULT_TITLE_PREFIX@ + match key {
        Some(k) => k,
        None => UNKNOWN_KEY@,
    }
}

/// The first media entry of type `media_type` flagged as default.
pub open spec fn default_media(s: Seq<LandNftMediaType>, media_type: u8) -> Option<LandNftMediaType>
    decreases s.len(),
{
    if s.len() == 0 {
        None
    } else if s[0].media_type == media_type && s[0].is_default {
        Some(s[0])
    } else {
        default_media(s.skip(1), media_type)
    }
}

/// The record that `LandNft::new` builds.
pub open spec fn new_land_model(
    key: Option<Seq<char>>,
    name: Option<Seq<char>>,
    description: Option<Seq<char>>,
    owner: Seq<char>,
    total_size: u64,
    each_size: u64,
    size_unit: Option<Seq<char>>,
    addr: Seq<char>,
    total_lands: u16,
    price: u64,
    price_denom: Option<Seq<char>>,
    date_created: u64,
) -> LandNftModel {
    LandNftModel {
        key: key,
        name: Some(
            match name {
                Some(n) => n,
                None => default_title(key),
            },
        ),
        description: Some(
            match description {
                Some(d) => d,
                None => default_title(key),
            },
        ),
        owner: owner,
        total_size: total_size,
        each_size: Some(each_size),
        size_unit: size_unit,
        addr: Some(addr),
        total_lands: total_lands,
        price: price,
        price_denom: Some(
            match price_denom {
                Some(d) => d,
                None => DEFAULT_PRICE_DENOM@,
            },
        ),
        status: None,
        symbol: DEFAULT_LAND_NFT_SYMBOL@,
        media_types: None,
        royalties: None,
        other_attributes: None,
        date_created: date_created,
        date_updated: date_created,
    }
}

fn title_for(key: &Option<String>) -> (r: String)
    ensures
        r@ == default_title(opt_str(*key)),
{
    let mut t = String::from_str(DEFAULT_TITLE_PREFIX);
    match key {
        Some(k) => t.append(k.as_str()),
        None => t.append(UNKNOWN_KEY),
    }
    t
}

impl LandNft {
    /// A new unminted record; a missing name or description becomes a title with the key, and
    /// a missing denomination the default one.
    pub fn new(
        key: Option<String>,
        name: Option<String>,
        description: Option<String>,
        owner: String,
        total_size: u64,
        each_size: u64,
        size_unit: Option<String>,
        addr: String,
        total_lands: u16,
        price: u64,
        price_denom: Option<String>,
        date_created: u64,
    ) -> (r: LandNft)
        ensures
            r@ == new_land_model(
                opt_str(key),
                opt_str(name),
                opt_str(description),
                owner@,
                total_size,
                each_size,
                opt_str(size_unit),
                addr@,
                total_lands,
                price,
                opt_str(price_denom),
                date_created,
            ),
    {
        let name = match name {
            Some(n) => n,
            None => title_for(&key),
        };
        let description = match description {
            Some(d) => d,
            None => title_for(&key),
        };
        let price_denom = match price_denom {
            Some(d) => d,
            None => String::from_str(DEFAULT_PRICE_DENOM),
        };
        LandNft {
            key: key,
            name: Some(name),
            description: Some(description),
            owner: owner,
            total_size: total_size,
            each_size: Some(each_size),
            size_unit: size_unit,
            addr: Some(addr),
            total_lands: total_lands,
            price: price,
            price_denom: Some(price_denom),
            status: None,
            symbol: String::from_str(DEFAULT_LAND_NFT_SYMBOL),
            media_types: None,
            royalties: None,
            other_attributes: None,
            date_created: date_created,
            date_updated: date_created,
        }
    }

    /// A placeholder record without a key.
    pub fn default(date_created: u64) -> (r: LandNft)
        ensures
            r@ == new_land_model(
                None,
                None,
                None,
                "xxxxx"@,
                0,
                0,
                None,
                "xxxx"@,
                0,
                0,
                None,
                date_created,
            ),
    {
        Self::new(
            None,
            None,
            None,
            String::from_str("xxxxx"),
            0,
            0,
            None,
            String::from_str("xxxx"),
            0,
            0,
            None,
            date_created,
        )
    }

    /// The key of the record with counter value `index`, such as `land_nft_7`.
    pub fn key(index: u32) -> (r: String)
        ensures
            r@ == land_key(index as nat),
    {
        let mut k = String::from_str(LAND_NFT_KEY_PREFIX);
        k.append("_");
        push_decimal(&mut k, index as u64);
        k
    }

    /// Adds a media reference unless one with the same url is present; the update time is
    /// stamped either way.
    pub fn add_media_type(&mut self, media_type: LandNftMediaType, date_updated: u64)
        ensures
            final(self)@ == (LandNftModel {
                media_types: Some(with_added(entries(old(self)@.media_types), media_type)),
                date_updated: date_updated,
                ..old(self)@
            }),
    {
        self.date_updated = date_updated;
        let mut v = match self.media_types.take() {
            Some(v) => v,
            None => Vec::new(),
        };
        add_unique(&mut v, media_type);
        self.media_types = Some(v);
    }

    /// Removes the media reference with `url`, if any; the update time is stamped either way.
    pub fn remove_media_type(&mut self, url: String, date_updated: u64)
        ensures
            final(self)@ == (LandNftModel {
                media_types: removed_from(old(self)@.media_types, url@),
                date_updated: date_updated,
                ..old(self)@
            }),
    {
        self.date_updated = date_updated;
        match self.media_types.take() {
            Some(mut v) => {
                remove_identity(&mut v, &url);
                self.media_types = Some(v);
            },
            None => {},
        }
    }

    pub fn all_media_types(&self) -> (r: Option<Vec<LandNftMediaType>>)
        ensures
            opt_seq(r) == self@.media_types,
    {
        clone_media_types(&self.media_types)
    }

    pub fn media_type_count(&self) -> (r: usize)
        ensures
            r == entries(self@.media_types).len(),
    {
        match &self.media_types {
            Some(v) => v.len(),
            None => 0,
        }
    }

    /// The first media reference of type `media_type` that is flagged as default.
    pub fn default_media_type_of(&self, media_type: u8) -> (r: Option<LandNftMediaType>)
        ensures
            r == default_media(entries(self@.media_types), media_type),
    {
        match &self.media_types {
            Some(v) => {
                let mut i: usize = 0;
                assert(v@.skip(0) =~= v@);
                while i < v.len()
                    invariant
                        i <= v@.len(),
                        entries(self@.media_types) == v@,
                        default_media(v@, media_type) == default_media(v@.skip(i as int), media_type),
                    decreases v@.len() - i,
                {
                    let ghost rest = v@.skip(i as int);
                    assert(rest[0] == v@[i as int]);
                    assert(rest.skip(1) =~= v@.skip(i + 1));
                    if v[i].media_type == media_type && v[i].is_default {
                        assert(default_media(rest, media_type) == Some(rest[0]));
                        let c = v[i].clone();
                        assert(c == rest[0]);
                        return Some(c);
                    }
                    i = i + 1;
                }
                assert(v@.skip(i as int).len() == 0);
                None
            },
            None => None,
        }
    }

    pub fn default_media_type_url(&self, media_type: u8) -> (r: Option<String>)
        ensures
            opt_str(r) == match default_media(entries(self@.media_types), media_type) {
                Some(m) => Some(m.url@),
                None => None,
            },
    {
        match self.default_media_type_of(media_type) {
            Some(m) => Some(m.url),
            None => None,
        }
    }

    /// Adds a royalty share unless one for the same wallet is present; the update time is
    /// stamped either way.
    pub fn add_royalty(&mut self, royalty: LandNftRoyalty, date_updated: u64)
        ensures
            final(self)@ == (LandNftModel {
                royalties: Some(with_added(entries(old(self)@.royalties), royalty)),
                date_updated: date_updated,
                ..old(self)@
            }),
    {
        self.date_updated = date_updated;
        let mut v = match self.royalties.take() {
            Some(v) => v,
            None => Vec::new(),
        };
        add_unique(&mut v, royalty);
        self.royalties = Some(v);
    }

    /// Removes the royalty share of `creator_wallet`, if any; the update time is stamped either
    /// way.
    pub fn remove_royalty(&mut self, creator_wallet: String, date_updated: u64)
        ensures
            final(self)@ == (LandNftModel {
                royalties: removed_from(old(self)@.royalties, creator_wallet@),
                date_updated: date_updated,
                ..old(self)@
            }),
    {
        self.date_updated = date_updated;
        match self.royalties.take() {
            Some(mut v) => {
                remove_identity(&mut v, &creator_wallet);
                self.royalties = Some(v);
            },
            None => {},
        }
    }

    pub fn all_royalties(&self) -> (r: Option<Vec<LandNftRoyalty>>)
        ensures
            opt_seq(r) == self@.royalties,
    {
        clone_royalties(&self.royalties)
    }

    pub fn royalty_count(&self) -> (r: usize)
        ensures
            r == entries(self@.royalties).len(),
    {
        match &self.royalties {
            Some(v) => v.len(),
            None => 0,
        }
    }

    /// Adds a display attribute; unlike the other sub-collections this leaves the time alone.
    pub fn add_other_attribute(&mut self, attribute: Attribute)
        ensures
            final(self)@ == (LandNftModel {
                other_attributes: Some(with_added(entries(old(self)@.other_attributes), attribute)),
                ..old(self)@
            }),
    {
        let mut v = match self.other_attributes.take() {
            Some(v) => v,
            None => Vec::new(),
        };
        add_unique(&mut v, attribute);
        self.other_attributes = Some(v);
    }

    /// Removes the display attribute of `attribute_type`, if any.
    pub fn remove_other_attribute(&mut self, attribute_type: String)
        ensures
            final(self)@ == (LandNftModel {
                other_attributes: removed_from(old(self)@.other_attributes, attribute_type@),
                ..old(self)@
            }),
    {
        match self.other_attributes.take() {
            Some(mut v) => {
                remove_identity(&mut v, &attribute_type);
                self.other_attributes = Some(v);
            },
            None => {},
        }
    }

    pub fn all_other_attributes(&self) -> (r: Option<Vec<Attribute>>)
        ensures
            opt_seq(r) == self@.other_attributes,
    {
        clone_attributes(&self.other_attributes)
    }

    pub fn other_attributes_count(&self) -> (r: usize)
        ensures
            r == entries(self@.other_attributes).len(),
    {
        match &self.other_attributes {
            Some(v) => v.len(),
            None => 0,
        }
    }
}

/// A display trait of the token metadata built from a record.
#[derive(Debug)]
pub struct MetadataTrait {
    pub display_type: Option<String>,
    pub trait_type: String,
    pub value: String,
}

pub type TraitView = (Option<Seq<char>>, Seq<char>, Seq<char>);

pub open spec fn trait_view(t: MetadataTrait) -> TraitView {
    (opt_str(t.display_type), t.trait_type@, t.value@)
}

/// A size with its unit, which is square metres when none is given.
pub open spec fn size_text(n: u64, unit: Option<Seq<char>>) -> Seq<char> {
    decimal(n as nat) + " "@ + match unit {
        Some(u) => u,
        None => "m2"@,
    }
}

/// The trait that a display attribute becomes.
pub open spec fn attribute_trait(a: Attribute) -> TraitView {
    (
        opt_str(a.display_type),
        a.attribute_type@,
        match a.value {
            Some(v) => v@,
            None => "N/A"@,
        },
    )
}

/// The fixed traits of a record: sizes, address, number of lands and symbol.
pub open spec fn fixed_traits(m: LandNftModel) -> Seq<TraitView> {
    seq![(Some("Total Size"@), "total-size"@, size_text(m.total_size, m.size_unit))] + (
    match m.each_size {
        Some(e) => seq![(Some("Unit Size"@), "unit-size"@, size_text(e, m.size_unit))],
        None => Seq::empty(),
    }) + (match m.addr {
        Some(a) => seq![(Some("Address"@), "address"@, a)],
        None => Seq::empty(),
    }) + seq![
        (Some("Total Number Of Lands"@), "total-lands"@, decimal(m.total_lands as nat)),
        (Some("Symbol"@), "symbol"@, m.symbol),
    ]
}

/// All display traits of a record: the fixed ones, then one per display attribute.
pub open spec fn metadata_traits(m: LandNftModel) -> Seq<TraitView> {
    fixed_traits(m) + entries(m.other_attributes).map_values(|a: Attribute| attribute_trait(a))
}

fn size_string(n: u64, unit: &Option<String>) -> (r: String)
    ensures
        r@ == size_text(n, opt_str(*unit)),
{
    let mut s = String::new();
    push_decimal(&mut s, n);
    s.append(" ");
    match unit {
        Some(u) => s.append(u.as_str()),
        None => s.append("m2"),
    }
    s
}

fn push_trait(v: &mut Vec<MetadataTrait>, display_type: &str, trait_type: &str, value: String)
    ensures
        final(v)@.map_values(|t: MetadataTrait| trait_view(t)) == old(v)@.map_values(
            |t: MetadataTrait| trait_view(t),
        ).push((Some(display_type@), trait_type@, value@)),
{
    v.push(
        MetadataTrait {
            display_type: Some(String::from_str(display_type)),
            trait_type: String::from_str(trait_type),
            value: value,
        },
    );
    assert(final(v)@.map_values(|t: MetadataTrait| trait_view(t)) =~= old(v)@.map_values(
        |t: MetadataTrait| trait_view(t),
    ).push((Some(display_type@), trait_type@, value@)));
}

impl LandNft {
    /// The record's display traits for token metadata.
    pub fn to_metadata_traits(&self) -> (r: Vec<MetadataTrait>)
        ensures
            r@.map_values(|t: MetadataTrait| trait_view(t)) == metadata_traits(self@),
    {
        let mut traits: Vec<MetadataTrait> = Vec::new();
        push_trait(&mut traits, "Total Size", "total-size", size_string(self.total_size, &self.size_unit));
        match self.each_size {
            Some(e) => push_trait(&mut traits, "Unit Size", "unit-size", size_string(e, &self.size_unit)),
            None => {},
        }
        match &self.addr {
            Some(a) => push_trait(&mut traits, "Address", "address", a.clone()),
            None => {},
        }
        let mut lands = String::new();
        push_decimal(&mut lands, self.total_lands as u64);
        push_trait(&mut traits, "Total Number Of Lands", "total-lands", lands);
        push_trait(&mut traits, "Symbol", "symbol", self.symbol.clone());
        assert(traits@.map_values(|t: MetadataTrait| trait_view(t)) =~= fixed_traits(self@));
        match &self.other_attributes {
            Some(attrs) => {
                let ghost fixed = fixed_traits(self@);
                let mut i: usize = 0;
                while i < attrs.len()
                    invariant
                        i <= attrs@.len(),
                        traits@.map_values(|t: MetadataTrait| trait_view(t)) == fixed + attrs@.take(
                            i as int,
                        ).map_values(|a: Attribute| attribute_trait(a)),
                    decreases attrs@.len() - i,
                {
                    let a = &attrs[i];
                    let value = match &a.value {
                        Some(v) => v.clone(),
                        None => String::from_str("N/A"),
                    };
                    let t = MetadataTrait {
                        display_type: clone_opt_string(&a.display_type),
                        trait_type: a.attribute_type.clone(),
                        value: value,
                    };
                    assert(trait_view(t) == attribute_trait(attrs@[i as int]));
                    let ghost before = traits@;
                    traits.push(t);
                    assert(traits@.map_values(|t: MetadataTrait| trait_view(t)) =~= before.map_values(
                        |t: MetadataTrait| trait_view(t),
                    ).push(attribute_trait(attrs@[i as int])));
                    assert(attrs@.take(i + 1) =~= attrs@.take(i as int).push(attrs@[i as int]));
                    assert(traits@.map_values(|t: MetadataTrait| trait_view(t)) =~= fixed
                        + attrs@.take(i + 1).map_values(|a: Attribute| attribute_trait(a)));
                    i = i + 1;
                }
                assert(attrs@.take(i as int) =~= attrs@);
            },
            None => {
                assert(traits@.map_values(|t: MetadataTrait| trait_view(t)) =~= metadata_traits(self@));
            },
        }
        traits
    }
}

pub const TREASURY_WALLET_MAIN: &'static str = "terra1c4kq5cft2df40q3tr9y0uum6cpksjf0f4y7zz0";

pub const TREASURY_WALLET_FEE: &'static str = "terra19c4jcex5zkdky00qqjpu5u5usvjk7wklxsajp3";

/// The fixed treasury split: the main treasury takes 95 percent, the fee wallet 5.
pub open spec fn treasury_list() -> Seq<Treasury> {
    seq![
        Treasury { wallet_address: TREASURY_WALLET_MAIN, percentage: 95 },
        Treasury { wallet_address: TREASURY_WALLET_FEE, percentage: 5 },
    ]
}

pub fn treasuries() -> (r: Vec<Treasury>)
    ensures
        r@ == treasury_list(),
{
    let r = vec![
        Treasury { wallet_address: TREASURY_WALLET_MAIN, percentage: 95 },
        Treasury { wallet_address: TREASURY_WALLET_FEE, percentage: 5 },
    ];
    assert(r@ =~= treasury_list());
    r
}

} // verus!
