//! Per-source health: last success, last attempt, last error and failure streak.

use vstd::prelude::*;

use crate::timestamp::Timestamp;
use super::evidence::IntelligenceSource;

verus! {

#[derive(Clone, Copy, Debug, PartialEq, Eq, Structural)]
pub enum SourceHealthStatus {
    Unknown,
    Healthy,
    Degraded,
    Unavailable,
    Disabled,
}

#[derive(Clone, Copy, Debug, PartialEq, Eq, Structural)]
pub enum SourceErrorCategory {
    Unavailable,
    Timeout,
    RateLimited,
    MalformedResponse,
    Unauthorized,
    CapabilityMissing,
    InvalidData,
    ProcessFailure,
    Disabled,
}

#[derive(Clone, Copy, Debug, PartialEq, Eq, Structural)]
pub struct SourceHealth {
    pub status: SourceHealthStatus,
    pub last_success: Option<Timestamp>,
    pub last_attempt: Option<Timestamp>,
    pub last_error: Option<SourceErrorCategory>,
    pub consecutive_failures: u32,
}

#[derive(Clone, Copy, Debug, PartialEq, Eq, Structural)]
pub struct SourceHealthView {
    pub source: IntelligenceSource,
    pub status: SourceHealthStatus,
    pub last_success: Option<Timestamp>,
    pub last_attempt: Option<Timestamp>,
    pub last_error: Option<SourceErrorCategory>,
    pub consecutive_failures: u32,
}

/// A source that has not been tried yet.
pub open spec fn unknown_health() -> SourceHealth {
    SourceHealth { status: SourceHealthStatus::Unknown, last_success: None, last_attempt: None, last_error: None, consecutive_failures: 0 }
}

/// The status a failure leaves a source in.
pub open spec fn failure_status(c: SourceErrorCategory) -> SourceHealthStatus {
    match c {
        SourceErrorCategory::Unavailable | SourceErrorCategory::Unauthorized | SourceErrorCategory::CapabilityMissing
        | SourceErrorCategory::ProcessFailure => SourceHealthStatus::Unavailable,
        SourceErrorCategory::Disabled => SourceHealthStatus::Disabled,
        _ => SourceHealthStatus::Degraded,
    }
}

/// The health of every source that has been seen, one slot per source.
#[derive(Clone, Copy, Debug, PartialEq, Eq, Structural)]
pub struct SourceHealthRegistry {
    atk_news: Option<SourceHealth>,
    polymarket: Option<SourceHealth>,
    reddit: Option<SourceHealth>,
    marx_finance: Option<SourceHealth>,
}

impl Default for SourceHealthRegistry {
    /// A registry that has seen no source.
    fn default() -> (r: SourceHealthRegistry)
        ensures
            forall|s: IntelligenceSource| #[trigger] r.health(s) is None,
    {
        SourceHealthRegistry { atk_news: None, polymarket: None, reddit: None, marx_finance: None }
    }
}

impl SourceHealthRegistry {
    /// What is recorded for a source.
    pub closed spec fn health(&self, s: IntelligenceSource) -> Option<SourceHealth> {
        match s {
            IntelligenceSource::AtkNews => self.atk_news,
            IntelligenceSource::Polymarket => self.polymarket,
            IntelligenceSource::Reddit => self.reddit,
            IntelligenceSource::MarxFinance => self.marx_finance,
        }
    }

    /// A registry in which every source is known and untried.
    pub fn new() -> (r: SourceHealthRegistry)
        ensures
            forall|s: IntelligenceSource| #[trigger] r.health(s) == Some(unknown_health()),
    {
        let u = SourceHealth {
            status: SourceHealthStatus::Unknown,
            last_success: None,
            last_attempt: None,
            last_error: None,
            consecutive_failures: 0,
        };
        SourceHealthRegistry { atk_news: Some(u), polymarket: Some(u), reddit: Some(u), marx_finance: Some(u) }
    }

    fn get(&self, source: IntelligenceSource) -> (h: Option<SourceHealth>)
        ensures
            h == self.health(source),
    {
        match source {
            IntelligenceSource::AtkNews => self.atk_news,
            IntelligenceSource::Polymarket => self.polymarket,
            IntelligenceSource::Reddit => self.reddit,
            IntelligenceSource::MarxFinance => self.marx_finance,
        }
    }

    fn put(&mut self, source: IntelligenceSource, h: SourceHealth)
        ensures
            final(self).health(source) == Some(h),
            forall|s: IntelligenceSource| s != source ==> #[trigger] final(self).health(s) == old(self).health(s),
    {
        match source {
            IntelligenceSource::AtkNews => self.atk_news = Some(h),
            IntelligenceSource::Polymarket => self.polymarket = Some(h),
            IntelligenceSource::Reddit => self.reddit = Some(h),
            IntelligenceSource::MarxFinance => self.marx_finance = Some(h),
        }
    }

    fn current(&self, source: IntelligenceSource) -> (h: SourceHealth)
        ensures
            h == (match self.health(source) {
                Some(x) => x,
                None => unknown_health(),
            }),
    {
        match self.get(source) {
            Some(h) => h,
            None => SourceHealth {
                status: SourceHealthStatus::Unknown,
                last_success: None,
                last_attempt: None,
                last_error: None,
                consecutive_failures: 0,
            },
        }
    }

    /// A successful collection: healthy, with the streak of failures reset.
    pub fn record_success(&mut self, source: IntelligenceSource, at: Timestamp)
        ensures
            final(self).health(source) == Some(
                SourceHealth {
                    status: SourceHealthStatus::Healthy,
                    last_success: Some(at),
                    last_attempt: Some(at),
                    last_error: None,
                    consecutive_failures: 0,
                },
            ),
            forall|s: IntelligenceSource| s != source ==> #[trigger] final(self).health(s) == old(self).health(s),
    {
        let h = self.current(source);
        self.put(source, SourceHealth {
            status: SourceHealthStatus::Healthy,
            last_success: Some(at),
            last_attempt: Some(at),
            last_error: None,
            consecutive_failures: 0,
            ..h
        });
    }

    /// A failed collection: the status its category calls for, and one more
    /// failure in the streak (saturating).
    pub fn record_failure(&mut self, source: IntelligenceSource, at: Timestamp, category: SourceErrorCategory)
        ensures
            ({
                let before = match old(self).health(source) {
                    Some(x) => x,
                    None => unknown_health(),
                };
                final(self).health(source) == Some(
                    SourceHealth {
                        status: failure_status(category),
                        last_attempt: Some(at),
                        last_error: Some(category),
                        consecutive_failures: if before.consecutive_failures == u32::MAX {
                            u32::MAX
                        } else {
                            (before.consecutive_failures + 1) as u32
                        },
                        ..before
                    },
                )
            }),
            forall|s: IntelligenceSource| s != source ==> #[trigger] final(self).health(s) == old(self).health(s),
    {
        let h = self.current(source);
        let status = match category {
            SourceErrorCategory::Unavailable | SourceErrorCategory::Unauthorized | SourceErrorCategory::CapabilityMissing
            | SourceErrorCategory::ProcessFailure => SourceHealthStatus::Unavailable,
            SourceErrorCategory::Disabled => SourceHealthStatus::Disabled,
            _ => SourceHealthStatus::Degraded,
        };
        let failures = if h.consecutive_failures == u32::MAX { u32::MAX } else { h.consecutive_failures + 1 };
        self.put(source, SourceHealth {
            status,
            last_attempt: Some(at),
            last_error: Some(category),
            consecutive_failures: failures,
            ..h
        });
    }

    /// A source skipped because it is switched off.
    pub fn record_disabled(&mut self, source: IntelligenceSource, at: Timestamp)
        ensures
            ({
                let before = match old(self).health(source) {
                    Some(x) => x,
                    None => unknown_health(),
                };
                final(self).health(source) == Some(
                    SourceHealth {
                        status: SourceHealthStatus::Disabled,
                        last_attempt: Some(at),
                        last_error: None,
                        consecutive_failures: 0,
                        ..before
                    },
                )
            }),
            forall|s: IntelligenceSource| s != source ==> #[trigger] final(self).health(s) == old(self).health(s),
    {
        let h = self.current(source);
        self.put(source, SourceHealth {
            status: SourceHealthStatus::Disabled,
            last_attempt: Some(at),
            last_error: None,
            consecutive_failures: 0,
            ..h
        });
    }

    pub fn status(&self, source: IntelligenceSource) -> (s: SourceHealthStatus)
        ensures
            s == (match self.health(source) {
                Some(h) => h.status,
                None => SourceHealthStatus::Unknown,
            }),
    {
        match self.get(source) {
            Some(h) => h.status,
            None => SourceHealthStatus::Unknown,
        }
    }

    pub fn last_error(&self, source: IntelligenceSource) -> (e: Option<SourceErrorCategory>)
        ensures
            e == (match self.health(source) {
                Some(h) => h.last_error,
                None => None,
            }),
    {
        match self.get(source) {
            Some(h) => h.last_error,
            None => None,
        }
    }

    /// The recorded sources in source order, each with its health.
    pub fn views(&self) -> (v: Vec<SourceHealthView>)
        ensures
            v@ == seen_views(*self),
    {
        let mut v: Vec<SourceHealthView> = Vec::new();
        let order = [IntelligenceSource::AtkNews, IntelligenceSource::Polymarket, IntelligenceSource::Reddit, IntelligenceSource::MarxFinance];
        let mut i: usize = 0;
        while i < 4
            invariant
                i <= 4,
                order@ == seq![IntelligenceSource::AtkNews, IntelligenceSource::Polymarket, IntelligenceSource::Reddit, IntelligenceSource::MarxFinance],
                v@ == views_from(*self, order@.subrange(0, i as int)),
            decreases 4 - i,
        {
            let source = order[i];
            proof {
                assert(order@.subrange(0, i + 1).drop_last() =~= order@.subrange(0, i as int));
            }
            match self.get(source) {
                Some(h) => v.push(SourceHealthView {
                    source,
                    status: h.status,
                    last_success: h.last_success,
                    last_attempt: h.last_attempt,
                    last_error: h.last_error,
                    consecutive_failures: h.consecutive_failures,
                }),
                None => {},
            }
            i = i + 1;
        }
        proof {
            assert(order@.subrange(0, 4) =~= order@);
        }
        v
    }
}

/// The view of a source's health.
pub open spec fn view_of(s: IntelligenceSource, h: SourceHealth) -> SourceHealthView {
    SourceHealthView {
        source: s,
        status: h.status,
        last_success: h.last_success,
        last_attempt: h.last_attempt,
        last_error: h.last_error,
        consecutive_failures: h.consecutive_failures,
    }
}

/// The views of the listed sources that have been seen, in list order.
pub open spec fn views_from(r: SourceHealthRegistry, order: Seq<IntelligenceSource>) -> Seq<SourceHealthView>
    decreases order.len(),
{
    if order.len() == 0 {
        Seq::empty()
    } else {
        let rest = views_from(r, order.drop_last());
        match r.health(order.last()) {
            Some(h) => rest.push(view_of(order.last(), h)),
            None => rest,
        }
    }
}

pub open spec fn seen_views(r: SourceHealthRegistry) -> Seq<SourceHealthView> {
    views_from(r, seq![IntelligenceSource::AtkNews, IntelligenceSource::Polymarket, IntelligenceSource::Reddit, IntelligenceSource::MarxFinance])
}

} // verus!
