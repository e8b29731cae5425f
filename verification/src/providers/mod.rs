pub mod ecdict;
pub mod http_dictionary;
pub mod mock;
pub mod openai;

use vstd::prelude::*;

verus! {

/// The dictionary sources that a query can use.
#[derive(Debug, Clone, Copy, PartialEq, Eq, Structural)]
pub enum ProviderKind {
    Ecdict,
    Mock,
    HttpDictionary,
    OpenAi,
}

impl ProviderKind {
    pub const ALL: [ProviderKind; 4] = [
        ProviderKind::Ecdict,
        ProviderKind::Mock,
        ProviderKind::HttpDictionary,
        ProviderKind::OpenAi,
    ];
}

} // verus!
