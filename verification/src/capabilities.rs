//! Provider capabilities and limits.

use vstd::prelude::*;

verus! {

/// What a provider supports, and the limits it imposes.
#[derive(Debug, Clone, PartialEq, Eq, Structural)]
pub struct ProviderCapabilities {
    /// Provider supports webhook notifications for real-time updates.
    pub supports_webhooks: bool,
    /// Provider supports real-time queries (as opposed to batch sync only).
    pub supports_real_time_updates: bool,
    /// Provider supports batch operations (e.g. bulk updates).
    pub supports_batch_operations: bool,
    /// Maximum requests per second; 0 means no rate limiting.
    pub rate_limit_per_second: u32,
    /// Maximum number of items per page in responses.
    pub pagination_max_size: u32,
    /// Provider requires authentication (API key, OAuth, ...).
    pub requires_authentication: bool,
    /// Provider supports cursor-based pagination (as opposed to offsets).
    pub supports_cursor_pagination: bool,
    /// Provider supports filtering/search.
    pub supports_filtering: bool,
    /// Provider supports sorting results.
    pub supports_sorting: bool,
}

/// The page size recommended when a provider states no maximum.
pub const FALLBACK_PAGE_SIZE: u32 = 50;

impl Default for ProviderCapabilities {
    /// No webhooks, no real-time updates, no batch operations, 10 requests
    /// per second, pages of at most 50 items, authentication required, no
    /// cursor pagination, no filtering and no sorting.
    fn default() -> (r: Self)
        ensures
            r == (ProviderCapabilities {
                supports_webhooks: false,
                supports_real_time_updates: false,
                supports_batch_operations: false,
                rate_limit_per_second: 10,
                pagination_max_size: 50,
                requires_authentication: true,
                supports_cursor_pagination: false,
                supports_filtering: false,
                supports_sorting: false,
            }),
    {
        ProviderCapabilities {
            supports_webhooks: false,
            supports_real_time_updates: false,
            supports_batch_operations: false,
            rate_limit_per_second: 10,
            pagination_max_size: 50,
            requires_authentication: true,
            supports_cursor_pagination: false,
            supports_filtering: false,
            supports_sorting: false,
        }
    }
}

impl ProviderCapabilities {
    /// Whether the provider allows at least `min_rate` requests per second
    /// (a rate limit of 0 means unlimited).
    pub open spec fn spec_meets_rate_limit(&self, min_rate: u32) -> bool {
        self.rate_limit_per_second == 0 || self.rate_limit_per_second >= min_rate
    }

    /// Check if the provider supports at least `min_rate` requests per second.
    pub fn meets_rate_limit(&self, min_rate: u32) -> (r: bool)
        ensures
            r == self.spec_meets_rate_limit(min_rate),
            self.rate_limit_per_second == 0 ==> r,
            self.rate_limit_per_second > 0 ==> (r <==> min_rate <= self.rate_limit_per_second),
    {
        self.rate_limit_per_second == 0 || self.rate_limit_per_second >= min_rate
    }

    /// Whether pages may hold at least `min_size` items.
    pub open spec fn spec_meets_pagination_size(&self, min_size: u32) -> bool {
        self.pagination_max_size >= min_size
    }

    /// Check if the provider supports pages of at least `min_size` items.
    pub fn meets_pagination_size(&self, min_size: u32) -> (r: bool)
        ensures
            r == self.spec_meets_pagination_size(min_size),
            r <==> min_size <= self.pagination_max_size,
    {
        self.pagination_max_size >= min_size
    }

    /// The page size to request: the provider's maximum, or 50 where the
    /// provider states none (a maximum of 0).
    pub open spec fn spec_recommended_page_size(&self) -> u32 {
        if self.pagination_max_size > 0 {
            self.pagination_max_size
        } else {
            FALLBACK_PAGE_SIZE
        }
    }

    /// Get a page size that respects the provider's limits.
    pub fn recommended_page_size(&self) -> (r: u32)
        ensures
            r == self.spec_recommended_page_size(),
            self.pagination_max_size > 0 ==> r == self.pagination_max_size,
            self.pagination_max_size == 0 ==> r == 50,
    {
        if self.pagination_max_size > 0 {
            self.pagination_max_size
        } else {
            FALLBACK_PAGE_SIZE
        }
    }
}

/// A provider with a nonzero rate limit meets exactly the rates up to that
/// limit: it meets `min_rate` when `min_rate` is at most the limit, and
/// fails it when `min_rate` is above the limit.
pub proof fn law_rate_limit_threshold(caps: ProviderCapabilities, min_rate: u32)
    requires
        caps.rate_limit_per_second > 0,
    ensures
        min_rate <= caps.rate_limit_per_second ==> caps.spec_meets_rate_limit(min_rate),
        min_rate > caps.rate_limit_per_second ==> !caps.spec_meets_rate_limit(min_rate),
{
}

/// A provider meets exactly the page sizes up to its maximum page size.
pub proof fn law_pagination_threshold(caps: ProviderCapabilities, min_size: u32)
    ensures
        min_size <= caps.pagination_max_size ==> caps.spec_meets_pagination_size(min_size),
        min_size > caps.pagination_max_size ==> !caps.spec_meets_pagination_size(min_size),
{
}

/// The recommended page size is the provider's maximum page size whenever
/// it states one (a nonzero maximum), and 50 when the maximum is 0.
pub proof fn law_recommended_page_size(caps: ProviderCapabilities)
    ensures
        caps.pagination_max_size > 0 ==> caps.spec_recommended_page_size()
            == caps.pagination_max_size,
        caps.pagination_max_size == 0 ==> caps.spec_recommended_page_size() == 50,
{
}

/// A provider that meets a rate also meets every smaller rate.
pub proof fn lemma_rate_limit_downward_closed(caps: ProviderCapabilities, rate: u32, lower: u32)
    requires
        caps.spec_meets_rate_limit(rate),
        lower <= rate,
    ensures
        caps.spec_meets_rate_limit(lower),
{
}

/// A provider without a rate limit meets every rate.
pub proof fn lemma_unlimited_meets_every_rate(caps: ProviderCapabilities, rate: u32)
    requires
        caps.rate_limit_per_second == 0,
    ensures
        caps.spec_meets_rate_limit(rate),
{
}

/// A provider that meets a page size also meets every smaller page size.
pub proof fn lemma_pagination_downward_closed(caps: ProviderCapabilities, size: u32, lower: u32)
    requires
        caps.spec_meets_pagination_size(size),
        lower <= size,
    ensures
        caps.spec_meets_pagination_size(lower),
{
}

/// The recommended page size is never 0, and where the provider states a
/// maximum it is that maximum, which the provider then meets.
pub proof fn lemma_recommended_page_size_valid(caps: ProviderCapabilities)
    ensures
        caps.spec_recommended_page_size() > 0,
        caps.pagination_max_size > 0 ==> caps.spec_meets_pagination_size(
            caps.spec_recommended_page_size(),
        ),
{
}

} // verus!
