//! Queries over the records that the store returns.
use vstd::prelude::*;
use vstd::utf8::encode_utf8;
use crate::error::ContractError;
use crate::resp::{
    LandNftMediaTypesResponse, LandNftRoyaltiesResponse, LandNftsResponse, LandNftResponse,
    LandNftCountResponse, OptionalLandNftResponse,
};
use crate::state::{LandNft, LandNftModel, LandNftMediaType, entries, opt_str};

verus! {

pub const DEFAULT_LIMIT: u32 = 10;

pub const MAX_LIMIT: u32 = 20;

/// The record stored at the key.
pub fn get_land_nft(stored: Option<LandNft>) -> (r: Result<LandNftResponse, ContractError>)
    ensures
        stored is None ==> r == Err::<LandNftResponse, ContractError>(ContractError::InvalidLandNft {}),
        stored is Some ==> (r matches Ok(resp) && resp.land_nft@ == stored.unwrap()@),
{
    match stored {
        Some(l) => Ok(LandNftResponse { land_nft: l }),
        None => Err(ContractError::InvalidLandNft {}),
    }
}

/// The record stored at the key, if any.
pub fn find_land_nft(stored: Option<LandNft>) -> (r: OptionalLandNftResponse)
    ensures
        r.land_nft is Some == stored is Some,
        stored is Some ==> r.land_nft.unwrap()@ == stored.unwrap()@,
{
    OptionalLandNftResponse { land_nft: stored }
}

/// The royalty shares of the record stored at the key.
pub fn get_land_nft_royalties(stored: Option<LandNft>) -> (r: Result<
    LandNftRoyaltiesResponse,
    ContractError,
>)
    ensures
        stored is None ==> r == Err::<LandNftRoyaltiesResponse, ContractError>(
            ContractError::InvalidLandNft {},
        ),
        stored is Some ==> (r matches Ok(resp) && resp.royalties@ == entries(
            stored.unwrap()@.royalties,
        )),
{
    match stored {
        None => Err(ContractError::InvalidLandNft {}),
        Some(l) => {
            let royalties = match l.royalties {
                Some(v) => v,
                None => Vec::new(),
            };
            Ok(LandNftRoyaltiesResponse { royalties: royalties })
        },
    }
}

/// All media references of the record stored at the key.
pub fn get_all_land_nft_media_types(stored: Option<LandNft>) -> (r: Result<
    LandNftMediaTypesResponse,
    ContractError,
>)
    ensures
        stored is None ==> r == Err::<LandNftMediaTypesResponse, ContractError>(
            ContractError::InvalidLandNft {},
        ),
        stored is Some ==> (r matches Ok(resp) && resp.media_types@ == entries(
            stored.unwrap()@.media_types,
        )),
{
    match stored {
        None => Err(ContractError::InvalidLandNft {}),
        Some(l) => {
            let media_types = match l.media_types {
                Some(v) => v,
                None => Vec::new(),
            };
            Ok(LandNftMediaTypesResponse { media_types: media_types })
        },
    }
}

/// The media references of type `media_type` of the record stored at the key, in order.
pub fn get_land_nft_media_types(stored: Option<LandNft>, media_type: u8) -> (r: Result<
    LandNftMediaTypesResponse,
    ContractError,
>)
    ensures
        stored is None ==> r == Err::<LandNftMediaTypesResponse, ContractError>(
            ContractError::InvalidLandNft {},
        ),
        stored is Some ==> (r matches Ok(resp) && resp.media_types@ == entries(
            stored.unwrap()@.media_types,
        ).filter(|m: LandNftMediaType| m.media_type == media_type)),
{
    match stored {
        None => Err(ContractError::InvalidLandNft {}),
        Some(l) => {
            let all = match l.media_types {
                Some(v) => v,
                None => Vec::new(),
            };
            let ghost pred = |m: LandNftMediaType| m.media_type == media_type;
            let mut out: Vec<LandNftMediaType> = Vec::new();
            let mut i: usize = 0;
            while i < all.len()
                invariant
                    i <= all@.len(),
                    out@ == all@.take(i as int).filter(pred),
                    pred == (|m: LandNftMediaType| m.media_type == media_type),
                decreases all@.len() - i,
            {
                proof {
                    reveal(Seq::filter);
                    assert(all@.take(i + 1).drop_last() =~= all@.take(i as int));
                    assert(all@.take(i + 1).last() == all@[i as int]);
                }
                if all[i].media_type == media_type {
                    out.push(all[i].clone());
                }
                i = i + 1;
            }
            assert(all@.take(i as int) =~= all@);
            Ok(LandNftMediaTypesResponse { media_types: out })
        },
    }
}

/// The page size for a requested limit: the default when none is given, otherwise the limit
/// clamped to between 1 and the maximum.
pub open spec fn page_size(limit: Option<u32>) -> nat {
    match limit {
        None => DEFAULT_LIMIT as nat,
        Some(l) => if l == 0 {
            1
        } else if l > MAX_LIMIT {
            MAX_LIMIT as nat
        } else {
            l as nat
        },
    }
}

pub fn page_limit(limit: Option<u32>) -> (r: usize)
    ensures
        r == page_size(limit),
        1 <= r <= MAX_LIMIT,
        limit is None ==> r == DEFAULT_LIMIT,
{
    match limit {
        None => DEFAULT_LIMIT as usize,
        Some(l) => if l == 0 {
            1
        } else if l > MAX_LIMIT {
            MAX_LIMIT as usize
        } else {
            l as usize
        },
    }
}

/// The bytes by which the store orders a key.
pub open spec fn key_bytes(k: Seq<char>) -> Seq<u8> {
    encode_utf8(k)
}

/// Lexicographic order on byte strings, a proper prefix coming first.
pub open spec fn bytes_lt(a: Seq<u8>, b: Seq<u8>) -> bool
    decreases a.len(),
{
    if a.len() == 0 {
        b.len() > 0
    } else if b.len() == 0 {
        false
    } else if a[0] != b[0] {
        a[0] < b[0]
    } else {
        bytes_lt(a.skip(1), b.skip(1))
    }
}

pub proof fn lemma_bytes_lt_irreflexive(a: Seq<u8>)
    ensures
        !bytes_lt(a, a),
    decreases a.len(),
{
    if a.len() > 0 {
        lemma_bytes_lt_irreflexive(a.skip(1));
    }
}

pub proof fn lemma_bytes_lt_asymmetric(a: Seq<u8>, b: Seq<u8>)
    requires
        bytes_lt(a, b),
    ensures
        !bytes_lt(b, a),
    decreases a.len(),
{
    if a.len() > 0 && b.len() > 0 && a[0] == b[0] {
        lemma_bytes_lt_asymmetric(a.skip(1), b.skip(1));
    }
}

fn slice_lt(a: &[u8], b: &[u8]) -> (r: bool)
    ensures
        r == bytes_lt(a@, b@),
{
    let mut i: usize = 0;
    proof {
        assert(a@.skip(0) =~= a@);
        assert(b@.skip(0) =~= b@);
    }
    while i < a.len() && i < b.len() && a[i] == b[i]
        invariant
            i <= a@.len(),
            i <= b@.len(),
            bytes_lt(a@, b@) == bytes_lt(a@.skip(i as int), b@.skip(i as int)),
        decreases a@.len() - i,
    {
        proof {
            let sa = a@.skip(i as int);
            let sb = b@.skip(i as int);
            assert(sa.skip(1) =~= a@.skip(i + 1));
            assert(sb.skip(1) =~= b@.skip(i + 1));
            assert(sa[0] == sb[0]);
        }
        i = i + 1;
    }
    if i < a.len() && i < b.len() {
        a[i] < b[i]
    } else {
        i == a.len() && i < b.len()
    }
}

/// Whether `a` sorts before `b` in the store's key order.
pub fn key_lt(a: &String, b: &String) -> (r: bool)
    ensures
        r == bytes_lt(key_bytes(a@), key_bytes(b@)),
{
    slice_lt(a.as_str().as_bytes(), b.as_str().as_bytes())
}

/// The number of leading entries that do not sort after the cursor; with keys in ascending order,
/// these are exactly the entries at or before it.
pub open spec fn past_cursor(es: Seq<(String, LandNft)>, start: Option<Seq<char>>) -> int
    decreases es.len(),
{
    match start {
        None => 0,
        Some(s) => if es.len() == 0 {
            0
        } else if bytes_lt(key_bytes(s), key_bytes(es[0].0@)) {
            0
        } else {
            1 + past_cursor(es.skip(1), start)
        },
    }
}

/// The entries of one page: past the cursor, at most `n` of them.
pub open spec fn page_entries(es: Seq<(String, LandNft)>, start: Option<Seq<char>>, n: nat) -> Seq<
    (String, LandNft),
> {
    let j = past_cursor(es, start);
    es.subrange(j, if j + n < es.len() { j + n } else { es.len() as int })
}

/// A stored entry as a record whose key is the one it is stored under.
pub open spec fn keyed_model(e: (String, LandNft)) -> LandNftModel {
    LandNftModel { key: Some(e.0@), ..e.1@ }
}

proof fn lemma_past_cursor_bounds(es: Seq<(String, LandNft)>, start: Option<Seq<char>>)
    ensures
        0 <= past_cursor(es, start) <= es.len(),
    decreases es.len(),
{
    if start is Some && es.len() > 0 {
        lemma_past_cursor_bounds(es.skip(1), start);
    }
}

/// What a sequence of records holds.
pub open spec fn models(ls: Seq<LandNft>) -> Seq<LandNftModel> {
    ls.map_values(|l: LandNft| l@)
}

/// The records whose status is exactly `status`; with no status given, the unminted ones.
pub open spec fn with_status(ms: Seq<LandNftModel>, status: Option<u8>) -> Seq<LandNftModel> {
    ms.filter(|m: LandNftModel| m.status == status)
}

/// Keeps the records whose status is exactly `status`, in order.
pub fn filter_by_status(records: &Vec<LandNft>, status: Option<u8>) -> (r: Vec<LandNft>)
    ensures
        models(r@) == with_status(models(records@), status),
{
    let ghost pred = |m: LandNftModel| m.status == status;
    let ghost ms = models(records@);
    let mut out: Vec<LandNft> = Vec::new();
    let mut i: usize = 0;
    while i < records.len()
        invariant
            i <= records@.len(),
            ms == models(records@),
            models(out@) == ms.take(i as int).filter(pred),
            pred == (|m: LandNftModel| m.status == status),
        decreases records@.len() - i,
    {
        proof {
            reveal(Seq::filter);
            let t = ms.take(i + 1);
            assert(t.drop_last() =~= ms.take(i as int));
            assert(t.last() == records@[i as int]@);
        }
        if records[i].status == status {
            let ghost before = out@;
            out.push(records[i].clone());
            assert(models(out@) =~= models(before).push(records@[i as int]@));
        }
        i = i + 1;
    }
    assert(ms.take(i as int) =~= ms);
    out
}

/// One page of records, in the store's key order, from the entries of an ordered scan.
pub fn get_all_land_nfts(
    scanned: Vec<(String, LandNft)>,
    start_after: Option<String>,
    limit: Option<u32>,
) -> (r: LandNftsResponse)
    ensures
        r.land_nfts@.len() == page_entries(scanned@, opt_str(start_after), page_size(limit)).len(),
        r.land_nfts@.len() <= page_size(limit),
        models(r.land_nfts@) == page_entries(scanned@, opt_str(start_after), page_size(limit)).map_values(
            |e: (String, LandNft)| keyed_model(e),
        ),
{
    let n = page_limit(limit);
    let ghost es = scanned@;
    let ghost start = opt_str(start_after);
    let mut j: usize = 0;
    proof {
        lemma_past_cursor_bounds(es, start);
        assert(es.skip(0) =~= es);
    }
    match &start_after {
        None => {},
        Some(s) => {
            while j < scanned.len() && !key_lt(s, &scanned[j].0)
                invariant
                    j <= es.len(),
                    es == scanned@,
                    start == Some(s@),
                    past_cursor(es, start) == j + past_cursor(es.skip(j as int), start),
                decreases es.len() - j,
            {
                proof {
                    let rest = es.skip(j as int);
                    assert(rest[0] == es[j as int]);
                    assert(rest.skip(1) =~= es.skip(j + 1));
                }
                j = j + 1;
            }
            proof {
                if j < es.len() {
                    assert(es.skip(j as int)[0] == es[j as int]);
                }
            }
        },
    }
    assert(past_cursor(es, start) == j);
    let ghost page = page_entries(es, start, n as nat);
    let mut out: Vec<LandNft> = Vec::new();
    let mut k: usize = 0;
    while k < n && k < scanned.len() - j
        invariant
            es == scanned@,
            k <= n,
            j + k <= es.len(),
            out@.len() == k,
            page == page_entries(es, start, n as nat),
            past_cursor(es, start) == j,
            n == page_size(limit),
            forall|i: int| 0 <= i < k ==> #[trigger] out@[i]@ == keyed_model(page[i]),
        decreases n - k,
    {
        let e = &scanned[j + k];
        let mut l = e.1.clone();
        l.key = Some(e.0.clone());
        assert(page[k as int] == es[j + k]);
        out.push(l);
        k = k + 1;
    }
    assert(models(out@) =~= page.map_values(|e: (String, LandNft)| keyed_model(e)));
    LandNftsResponse { land_nfts: out }
}

/// One page of records whose status is exactly `status` (the unminted ones when none is given):
/// the page is cut first, then filtered.
pub fn get_all_land_nfts_by(
    scanned: Vec<(String, LandNft)>,
    status: Option<u8>,
    start_after: Option<String>,
    limit: Option<u32>,
) -> (r: LandNftsResponse)
    ensures
        models(r.land_nfts@) == with_status(
            page_entries(scanned@, opt_str(start_after), page_size(limit)).map_values(
                |e: (String, LandNft)| keyed_model(e),
            ),
            status,
        ),
{
    let page = get_all_land_nfts(scanned, start_after, limit);
    LandNftsResponse { land_nfts: filter_by_status(&page.land_nfts, status) }
}

/// How many of the records have status exactly `status`.
pub fn get_count_of_land_nfts_by(records: &Vec<LandNft>, status: Option<u8>) -> (r:
    LandNftCountResponse)
    ensures
        r.count == with_status(models(records@), status).len(),
{
    let kept = filter_by_status(records, status);
    LandNftCountResponse { count: kept.len() }
}

/// The record at position `index` among those with status exactly `status`.
pub fn get_land_nft_by_index(records: &Vec<LandNft>, status: Option<u8>, index: u32) -> (r:
    OptionalLandNftResponse)
    ensures
        ({
            let f = with_status(models(records@), status);
            &&& (r.land_nft is Some <==> index < f.len())
            &&& index < f.len() ==> r.land_nft.unwrap()@ == f[index as int]
        }),
{
    let mut kept = filter_by_status(records, status);
    let ghost f = models(kept@);
    if (index as usize) < kept.len() {
        let l = kept.swap_remove(index as usize);
        assert(l@ == f[index as int]);
        OptionalLandNftResponse { land_nft: Some(l) }
    } else {
        OptionalLandNftResponse { land_nft: None }
    }
}

/// Paging never repeats or skips a record: when a page is full, the next page, which starts
/// after the last key of the first, continues exactly where the first one stopped, provided the
/// scan lists keys in ascending order.
pub proof fn lemma_next_page_continues(
    es: Seq<(String, LandNft)>,
    start: Option<Seq<char>>,
    n: nat,
    m: nat,
)
    requires
        forall|i: int, j: int|
            0 <= i < j < es.len() ==> bytes_lt(
                #[trigger] key_bytes(es[i].0@),
                #[trigger] key_bytes(es[j].0@),
            ),
        n > 0,
        page_entries(es, start, n).len() == n,
    ensures
        ({
            let first = page_entries(es, start, n);
            let next = page_entries(es, Some(first.last().0@), m);
            let j = past_cursor(es, start);
            first + next == es.subrange(j, if j + n + m < es.len() { j + n + m } else { es.len() as int })
        }),
{
    let j = past_cursor(es, start);
    lemma_past_cursor_bounds(es, start);
    let first = page_entries(es, start, n);
    let q = j + n;
    let k = key_bytes(es[q - 1].0@);
    assert(first.last() == es[q - 1]);
    assert forall|i: int| 0 <= i < q implies !bytes_lt(k, #[trigger] key_bytes(es[i].0@)) by {
        if i < q - 1 {
            lemma_bytes_lt_asymmetric(key_bytes(es[i].0@), k);
        } else {
            lemma_bytes_lt_irreflexive(k);
        }
    }
    lemma_past_cursor_at(es, es[q - 1].0@, q);
    assert(past_cursor(es, Some(first.last().0@)) == q);
    let end = if j + n + m < es.len() { j + n + m } else { es.len() as int };
    assert(first + page_entries(es, Some(first.last().0@), m) =~= es.subrange(j, end));
}

proof fn lemma_past_cursor_at(es: Seq<(String, LandNft)>, s: Seq<char>, q: int)
    requires
        0 <= q <= es.len(),
        forall|i: int| 0 <= i < q ==> !bytes_lt(key_bytes(s), #[trigger] key_bytes(es[i].0@)),
        q < es.len() ==> bytes_lt(key_bytes(s), key_bytes(es[q].0@)),
    ensures
        past_cursor(es, Some(s)) == q,
    decreases q,
{
    if q > 0 {
        let rest = es.skip(1);
        assert forall|i: int| 0 <= i < q - 1 implies !bytes_lt(
            key_bytes(s),
            #[trigger] key_bytes(rest[i].0@),
        ) by {
            assert(rest[i] == es[i + 1]);
        }
        if q < es.len() {
            assert(rest[q - 1] == es[q]);
        }
        lemma_past_cursor_at(rest, s, q - 1);
    }
}

} // verus!
