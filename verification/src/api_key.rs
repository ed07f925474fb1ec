//! The APIs this broker serves: their wire keys, the static capability
//! table advertising the inclusive version range accepted for each, and the
//! per-API request-header layout version.
use vstd::prelude::*;

verus! {

/// An API this broker has a handler for.
#[derive(Clone, Copy, Debug, PartialEq, Eq, Structural)]
pub enum ApiKey {
    Fetch,
    ApiVersions,
    DescribeTopicPartitions,
}

impl ApiKey {
    /// The wire value identifying this API.
    pub open spec fn spec_code(self) -> i16 {
        match self {
            ApiKey::Fetch => 1,
            ApiKey::ApiVersions => 18,
            ApiKey::DescribeTopicPartitions => 75,
        }
    }

    pub fn code(self) -> (r: i16)
        ensures
            r == self.spec_code(),
    {
        match self {
            ApiKey::Fetch => 1,
            ApiKey::ApiVersions => 18,
            ApiKey::DescribeTopicPartitions => 75,
        }
    }

    /// The API a wire value names, if the broker handles it.
    pub open spec fn spec_from_code(code: int) -> Option<ApiKey> {
        if code == 1 {
            Some(ApiKey::Fetch)
        } else if code == 18 {
            Some(ApiKey::ApiVersions)
        } else if code == 75 {
            Some(ApiKey::DescribeTopicPartitions)
        } else {
            None
        }
    }

    pub fn from_code(code: i16) -> (r: Option<ApiKey>)
        ensures
            r == ApiKey::spec_from_code(code as int),
    {
        if code == 1 {
            Some(ApiKey::Fetch)
        } else if code == 18 {
            Some(ApiKey::ApiVersions)
        } else if code == 75 {
            Some(ApiKey::DescribeTopicPartitions)
        } else {
            None
        }
    }
}

/// One advertised API: its key and the inclusive version range accepted.
#[derive(Clone, Copy, Debug, PartialEq, Eq, Structural)]
pub struct ApiKeyInfo {
    pub api_key: ApiKey,
    pub min_version: i16,
    pub max_version: i16,
}

/// The inclusive version range the broker accepts for an API.
pub open spec fn spec_version_range(key: ApiKey) -> (int, int) {
    match key {
        ApiKey::Fetch => (0, 16),
        ApiKey::ApiVersions => (0, 4),
        ApiKey::DescribeTopicPartitions => (0, 4),
    }
}

/// Whether a request version lies within the advertised range for its API.
pub open spec fn spec_version_supported(key: ApiKey, ver: int) -> bool {
    spec_version_range(key).0 <= ver && ver <= spec_version_range(key).1
}

/// The static, process-wide capability table: one entry per supported API.
pub open spec fn spec_api_table() -> Seq<ApiKeyInfo> {
    seq![
        ApiKeyInfo { api_key: ApiKey::ApiVersions, min_version: 0, max_version: 4 },
        ApiKeyInfo { api_key: ApiKey::DescribeTopicPartitions, min_version: 0, max_version: 4 },
        ApiKeyInfo { api_key: ApiKey::Fetch, min_version: 0, max_version: 16 },
    ]
}

/// Build the capability table the broker advertises.
pub fn supported_apis() -> (r: Vec<ApiKeyInfo>)
    ensures
        r@ == spec_api_table(),
{
    let mut r: Vec<ApiKeyInfo> = Vec::new();
    r.push(ApiKeyInfo { api_key: ApiKey::ApiVersions, min_version: 0, max_version: 4 });
    r.push(ApiKeyInfo { api_key: ApiKey::DescribeTopicPartitions, min_version: 0, max_version: 4 });
    r.push(ApiKeyInfo { api_key: ApiKey::Fetch, min_version: 0, max_version: 16 });
    proof {
        assert(r@ =~= spec_api_table());
    }
    r
}

/// Whether the capability table has an entry for `key`.
pub open spec fn table_lists(key: ApiKey) -> bool {
    exists|i: int|
        0 <= i < spec_api_table().len() && (#[trigger] spec_api_table()[i]).api_key == key
}

/// The range the router enforces for each API is exactly the range the
/// capability table advertises for it, and every supported API is listed.
pub proof fn lemma_table_matches_ranges()
    ensures
        forall|i: int|
            0 <= i < spec_api_table().len() ==> spec_version_range(
                (#[trigger] spec_api_table()[i]).api_key,
            ) == (spec_api_table()[i].min_version as int, spec_api_table()[i].max_version as int),
        forall|key: ApiKey| #[trigger] table_lists(key),
{
    assert forall|key: ApiKey| #[trigger] table_lists(key) by {
        match key {
            ApiKey::ApiVersions => {
                assert(spec_api_table()[0].api_key == key);
            },
            ApiKey::DescribeTopicPartitions => {
                assert(spec_api_table()[1].api_key == key);
            },
            ApiKey::Fetch => {
                assert(spec_api_table()[2].api_key == key);
            },
        }
    }
}

/// Whether the request's declared version is acceptable for its API.
pub fn check_version(api_key: ApiKey, api_version: i16) -> (r: bool)
    ensures
        r == spec_version_supported(api_key, api_version as int),
{
    match api_key {
        ApiKey::Fetch => 0 <= api_version && api_version <= 16,
        ApiKey::ApiVersions => 0 <= api_version && api_version <= 4,
        ApiKey::DescribeTopicPartitions => 0 <= api_version && api_version <= 4,
    }
}

/// The request-header layout version an API uses at a given API version.
pub open spec fn spec_header_version(key: ApiKey, ver: int) -> int {
    match key {
        ApiKey::ApiVersions => if ver >= 3 {
            2
        } else {
            1
        },
        ApiKey::Fetch => if ver >= 12 {
            2
        } else {
            1
        },
        ApiKey::DescribeTopicPartitions => 2,
    }
}

pub fn request_header_version(key: ApiKey, ver: i16) -> (r: i16)
    ensures
        r as int == spec_header_version(key, ver as int),
{
    match key {
        ApiKey::ApiVersions => if ver >= 3 {
            2
        } else {
            1
        },
        ApiKey::Fetch => if ver >= 12 {
            2
        } else {
            1
        },
        ApiKey::DescribeTopicPartitions => 2,
    }
}

} // verus!
