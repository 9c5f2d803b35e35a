use vstd::prelude::*;

verus! {

/// The metadata spec version that every vault's share token announces.
pub const NFT141_FT_METADATA_SPEC: &'static str = "nft141-ft-1.0.0";

/// Why share-token metadata is not well formed.
#[derive(Debug, Clone, Copy, PartialEq, Eq)]
pub enum MetadataError {
    WrongSpec,
    ReferenceMismatch,
    BadHashLength,
}

/// Descriptive metadata of a vault's share token. The reference hash is held
/// as its raw bytes.
pub struct NFT141PairMetadata {
    pub spec: String,
    pub name: String,
    pub symbol: String,
    pub icon: Option<String>,
    pub reference: Option<String>,
    pub reference_hash: Option<Vec<u8>>,
    pub decimals: u8,
}

impl NFT141PairMetadata {
    /// The spec string matches, a reference comes with a hash and only with
    /// one, and a hash is 32 bytes long.
    pub open spec fn valid(&self) -> bool {
        &&& self.spec@ == NFT141_FT_METADATA_SPEC@
        &&& self.reference.is_some() == self.reference_hash.is_some()
        &&& (self.reference_hash matches Some(h) ==> h@.len() == 32)
    }

    /// Whether `other` holds the same text, bytes and decimals as `self`.
    pub open spec fn same_as(&self, other: &NFT141PairMetadata) -> bool {
        &&& self.spec@ == other.spec@
        &&& self.name@ == other.name@
        &&& self.symbol@ == other.symbol@
        &&& self.decimals == other.decimals
        &&& match (self.icon, other.icon) {
            (Some(a), Some(b)) => a@ == b@,
            (None, None) => true,
            _ => false,
        }
        &&& match (self.reference, other.reference) {
            (Some(a), Some(b)) => a@ == b@,
            (None, None) => true,
            _ => false,
        }
        &&& match (self.reference_hash, other.reference_hash) {
            (Some(a), Some(b)) => a@ == b@,
            (None, None) => true,
            _ => false,
        }
    }

    pub fn duplicate(&self) -> (r: NFT141PairMetadata)
        ensures
            r.same_as(self),
    {
        NFT141PairMetadata {
            spec: self.spec.clone(),
            name: self.name.clone(),
            symbol: self.symbol.clone(),
            icon: copy_text(&self.icon),
            reference: copy_text(&self.reference),
            reference_hash: match &self.reference_hash {
                Some(h) => Some(copy_bytes(h)),
                None => None,
            },
            decimals: self.decimals,
        }
    }

    /// Checks the metadata, reporting the first rule that fails.
    pub fn assert_valid(&self) -> (r: Result<(), MetadataError>)
        ensures
            r is Ok <==> self.valid(),
            r == Err::<(), MetadataError>(MetadataError::WrongSpec) <==> self.spec@
                != NFT141_FT_METADATA_SPEC@,
            r == Err::<(), MetadataError>(MetadataError::ReferenceMismatch) <==> self.spec@
                == NFT141_FT_METADATA_SPEC@ && self.reference.is_some()
                != self.reference_hash.is_some(),
    {
        let expected = NFT141_FT_METADATA_SPEC.to_owned();
        if self.spec != expected {
            return Err(MetadataError::WrongSpec);
        }
        if self.reference.is_some() != self.reference_hash.is_some() {
            return Err(MetadataError::ReferenceMismatch);
        }
        match &self.reference_hash {
            Some(h) => {
                if h.len() != 32 {
                    return Err(MetadataError::BadHashLength);
                }
            },
            None => {},
        }
        Ok(())
    }
}

fn copy_text(t: &Option<String>) -> (r: Option<String>)
    ensures
        match (*t, r) {
            (Some(a), Some(b)) => a@ == b@,
            (None, None) => true,
            _ => false,
        },
{
    match t {
        Some(s) => Some(s.clone()),
        None => None,
    }
}

fn copy_bytes(b: &Vec<u8>) -> (r: Vec<u8>)
    ensures
        r@ == b@,
{
    let mut r: Vec<u8> = Vec::new();
    let mut i: usize = 0;
    while i < b.len()
        invariant
            i <= b@.len(),
            r@ == b@.take(i as int),
        decreases b@.len() - i,
    {
        r.push(b[i]);
        i = i + 1;
        assert(r@ =~= b@.take(i as int));
    }
    assert(b@.take(b@.len() as int) =~= b@);
    r
}

/// Gives out the metadata of a vault's share token.
pub trait NFT141PairMetadataProvider {
    /// The metadata that the provider stands for.
    spec fn provided_metadata(&self) -> NFT141PairMetadata;

    fn ft_metadata(&self) -> (r: NFT141PairMetadata)
        ensures
            r.same_as(&self.provided_metadata()),
    ;
}

} // verus!
