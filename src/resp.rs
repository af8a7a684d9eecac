//! Query results.
use vstd::prelude::*;
use crate::state::{LandNft, LandNftMediaType, LandNftRoyalty};

verus! {

#[derive(Debug)]
pub struct LandNftMediaTypesResponse {
    pub media_types: Vec<LandNftMediaType>,
}

#[derive(Debug)]
pub struct LandNftRoyaltiesResponse {
    pub royalties: Vec<LandNftRoyalty>,
}

#[derive(Debug)]
pub struct LandNftsResponse {
    pub land_nfts: Vec<LandNft>,
}

#[derive(Debug)]
pub struct LandNftResponse {
    pub land_nft: LandNft,
}

#[derive(Debug)]
pub struct OptionalLandNftResponse {
    pub land_nft: Option<LandNft>,
}

#[derive(Debug, PartialEq, Eq, Structural)]
pub struct LandNftCountResponse {
    pub count: usize,
}

} // verus!
