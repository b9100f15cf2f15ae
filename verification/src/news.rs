//! The causes and time windows of market-moving news events, and which
//! symbols or sectors they concern.
use vstd::prelude::*;

use rand::rngs::StdRng;

use crate::draws::random_index;
use crate::market::{Sector, Symbol, Tick};
use crate::sectors::SectorModel;

verus! {

/// The underlying cause of a news event, by what it concerns.
#[derive(Debug, Clone)]
pub enum EventKind {
    /// An earnings beat or miss of one company.
    EarningsSurprise { symbol: Symbol },
    /// A company's revised growth guidance.
    GuidanceChange { symbol: Symbol },
    /// A central bank rate decision.
    RateDecision,
    /// Sector-wide news.
    SectorNews { sector: Sector },
}

impl EventKind {
    /// The symbol the event concerns, for company events.
    pub open spec fn subject(self) -> Option<Seq<char>> {
        match self {
            EventKind::EarningsSurprise { symbol } => Some(symbol@),
            EventKind::GuidanceChange { symbol } => Some(symbol@),
            _ => None,
        }
    }

    /// The primary symbol affected, if any.
    pub fn symbol(&self) -> (r: Option<&Symbol>)
        ensures
            match self.subject() {
                Some(s) => r matches Some(x) && x@ == s,
                None => r is None,
            },
    {
        match self {
            EventKind::EarningsSurprise { symbol } => Some(symbol),
            EventKind::GuidanceChange { symbol } => Some(symbol),
            EventKind::RateDecision => None,
            EventKind::SectorNews { .. } => None,
        }
    }

    /// The sector affected, if any.
    pub fn sector(&self) -> (r: Option<Sector>)
        ensures
            r == (match *self {
                EventKind::SectorNews { sector } => Some(sector),
                _ => None,
            }),
    {
        match self {
            EventKind::SectorNews { sector } => Some(*sector),
            _ => None,
        }
    }

    /// Whether the event permanently changes fundamentals: every kind but
    /// sector news, which only moves sentiment.
    pub fn is_permanent(&self) -> (b: bool)
        ensures
            b == !(*self is SectorNews),
    {
        match self {
            EventKind::SectorNews { .. } => false,
            _ => true,
        }
    }
}

/// The ticks during which an event is active: `duration_ticks` ticks from `start_tick`.
#[derive(Debug, Clone, Copy, PartialEq, Eq, Structural)]
pub struct EventWindow {
    pub start_tick: Tick,
    pub duration_ticks: u64,
}

impl EventWindow {
    /// Whether the event is active at `tick`.
    pub fn is_active(&self, tick: Tick) -> (b: bool)
        requires
            self.start_tick + self.duration_ticks <= u64::MAX,
        ensures
            b == (self.start_tick <= tick < self.start_tick + self.duration_ticks),
    {
        tick >= self.start_tick && tick < self.start_tick + self.duration_ticks
    }
}

/// A sector for sector news: drawn among the sectors that have symbols in
/// `model`, or among all sectors when none has.
pub fn pick_sector(rng: &mut StdRng, model: &SectorModel) -> (s: Sector)
    requires
        model.wf(),
    ensures
        model.sector_order().len() > 0 ==> model.sector_order().contains(s),
{
    let active = model.active_sectors();
    if active.len() == 0 {
        let all = Sector::all();
        let i = random_index(rng, all.len());
        all[i]
    } else {
        let i = random_index(rng, active.len());
        proof {
            assert(active@[i as int] == model.sector_order()[i as int]);
        }
        active[i]
    }
}

/// The four kinds of generated news.
#[derive(Debug, Clone, Copy, PartialEq, Eq, Structural)]
pub enum NewsKind {
    Earnings,
    Guidance,
    RateDecision,
    SectorNews,
}

/// When each kind of news last occurred, and the next event id.
#[derive(Debug, Clone, Copy, PartialEq, Eq, Structural)]
pub struct NewsSchedule {
    pub next_id: u64,
    pub last_earnings_tick: Option<Tick>,
    pub last_guidance_tick: Option<Tick>,
    pub last_rate_tick: Option<Tick>,
    pub last_sector_tick: Option<Tick>,
}

impl NewsSchedule {
    /// When `kind` last occurred.
    pub open spec fn last_of(self, kind: NewsKind) -> Option<Tick> {
        match kind {
            NewsKind::Earnings => self.last_earnings_tick,
            NewsKind::Guidance => self.last_guidance_tick,
            NewsKind::RateDecision => self.last_rate_tick,
            NewsKind::SectorNews => self.last_sector_tick,
        }
    }

    /// Whether `kind` may occur at `tick` given `min_interval`.
    pub open spec fn open_at(self, kind: NewsKind, tick: Tick, min_interval: u64) -> bool {
        match self.last_of(kind) {
            Some(last) => tick >= last + min_interval,
            None => true,
        }
    }

    /// No news yet; ids start at 1.
    pub fn new() -> (s: NewsSchedule)
        ensures
            s == (NewsSchedule {
                next_id: 1,
                last_earnings_tick: None,
                last_guidance_tick: None,
                last_rate_tick: None,
                last_sector_tick: None,
            }),
    {
        NewsSchedule { next_id: 1, last_earnings_tick: None, last_guidance_tick: None, last_rate_tick: None, last_sector_tick: None }
    }

    /// Whether `kind` may occur at `tick`: it never occurred, or
    /// `min_interval` ticks have passed since it last did.
    pub fn interval_open(&self, kind: NewsKind, tick: Tick, min_interval: u64) -> (b: bool)
        requires
            self.last_of(kind) matches Some(last) ==> last + min_interval <= u64::MAX,
        ensures
            b == self.open_at(kind, tick, min_interval),
    {
        let last = match kind {
            NewsKind::Earnings => self.last_earnings_tick,
            NewsKind::Guidance => self.last_guidance_tick,
            NewsKind::RateDecision => self.last_rate_tick,
            NewsKind::SectorNews => self.last_sector_tick,
        };
        match last {
            Some(l) => !(tick < l + min_interval),
            None => true,
        }
    }

    /// Record an event of `kind` at `tick`: it takes the next id, which advances.
    pub fn record(&mut self, kind: NewsKind, tick: Tick) -> (id: u64)
        requires
            old(self).next_id < u64::MAX,
        ensures
            id == old(self).next_id,
            final(self).next_id == old(self).next_id + 1,
            final(self).last_of(kind) == Some(tick),
            forall|k: NewsKind| k != kind ==> #[trigger] final(self).last_of(k) == old(self).last_of(k),
    {
        let id = self.next_id;
        self.next_id = self.next_id + 1;
        match kind {
            NewsKind::Earnings => self.last_earnings_tick = Some(tick),
            NewsKind::Guidance => self.last_guidance_tick = Some(tick),
            NewsKind::RateDecision => self.last_rate_tick = Some(tick),
            NewsKind::SectorNews => self.last_sector_tick = Some(tick),
        }
        id
    }
}

/// After an event of `kind` recorded at `tick`, that kind stays closed
/// until `min_interval` ticks have passed and is open from then on.
pub proof fn lemma_recorded_kind_waits(s: NewsSchedule, kind: NewsKind, tick: Tick, min_interval: u64, later: Tick)
    requires
        s.last_of(kind) == Some(tick),
    ensures
        later < tick + min_interval ==> !s.open_at(kind, later, min_interval),
        later >= tick + min_interval ==> s.open_at(kind, later, min_interval),
{
}

} // verus!
