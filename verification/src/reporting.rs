//! Reporting metrics for simulation runs: equity, drawdown, trades and
//! costs, accumulated as the run goes.

use vstd::prelude::*;

use crate::dec::{decimal_add, decimal_sub, units, Dec, DecView};

verus! {

/// What a finished run reports.
#[derive(Clone, Copy, Debug)]
pub struct SimulationReport {
    pub starting_equity: Dec,
    pub ending_equity: Dec,
    pub pnl: Dec,
    pub max_drawdown: Dec,
    pub trade_count: usize,
    pub wins: usize,
    pub losses: usize,
    pub fees: Dec,
    pub slippage: Dec,
    pub hold_count: usize,
    pub rejected_count: usize,
    pub protective_exit_count: usize,
}

/// Accumulates a run's report.
#[derive(Clone, Copy, Debug)]
pub struct ReportBuilder {
    pub starting_equity: Dec,
    pub peak_equity: Dec,
    pub max_drawdown: Dec,
    pub realized_pnl: Dec,
    pub trade_count: usize,
    pub wins: usize,
    pub losses: usize,
    pub fees: Dec,
    pub slippage: Dec,
    pub hold_count: usize,
    pub rejected_count: usize,
    pub protective_exit_count: usize,
}

/// The peak after seeing an equity: the larger of the two, the old peak on
/// a tie.
pub open spec fn next_peak(peak: DecView, equity: DecView) -> DecView {
    if units(equity) > units(peak) {
        equity
    } else {
        peak
    }
}

/// The equity can be recorded without the drawdown overflowing.
pub open spec fn equity_recordable(b: ReportBuilder, equity: Dec) -> bool {
    decimal_sub(next_peak(b.peak_equity@, equity@), equity@) is Some
}

/// The trade can be recorded without a count or a sum overflowing.
pub open spec fn trade_recordable(b: ReportBuilder, realized_pnl: Dec, fee: Dec) -> bool {
    &&& b.trade_count < usize::MAX
    &&& b.wins < usize::MAX
    &&& b.losses < usize::MAX
    &&& decimal_add(b.realized_pnl@, realized_pnl@) is Some
    &&& decimal_add(b.fees@, fee@) is Some
}

impl ReportBuilder {
    /// A fresh report: the starting equity is the peak, nothing else yet.
    pub fn new(starting_equity: Dec) -> (b: ReportBuilder)
        ensures
            b.starting_equity == starting_equity,
            b.peak_equity == starting_equity,
            units(b.max_drawdown@) == 0 && units(b.realized_pnl@) == 0 && units(b.fees@) == 0 && units(b.slippage@) == 0,
            b.trade_count == 0 && b.wins == 0 && b.losses == 0 && b.hold_count == 0 && b.rejected_count == 0
                && b.protective_exit_count == 0,
    {
        ReportBuilder {
            starting_equity,
            peak_equity: starting_equity,
            max_drawdown: Dec::zero(),
            realized_pnl: Dec::zero(),
            trade_count: 0,
            wins: 0,
            losses: 0,
            fees: Dec::zero(),
            slippage: Dec::zero(),
            hold_count: 0,
            rejected_count: 0,
            protective_exit_count: 0,
        }
    }

    /// Raises the peak to the equity where it is higher, and the maximum
    /// drawdown to the fall from the peak where that is larger.
    pub fn record_equity(&mut self, equity: Dec)
        requires
            equity_recordable(*old(self), equity),
        ensures
            final(self).peak_equity@ == next_peak(old(self).peak_equity@, equity@),
            ({
                let d = decimal_sub(next_peak(old(self).peak_equity@, equity@), equity@).unwrap();
                final(self).max_drawdown@ == (if units(d) > units(old(self).max_drawdown@) { d } else { old(self).max_drawdown@ })
            }),
            *final(self) == (ReportBuilder { peak_equity: final(self).peak_equity, max_drawdown: final(self).max_drawdown, ..*old(self) }),
    {
        if self.peak_equity.lt(&equity) {
            self.peak_equity = equity;
        }
        let drawdown = self.peak_equity.checked_sub(&equity).unwrap();
        if self.max_drawdown.lt(&drawdown) {
            self.max_drawdown = drawdown;
        }
    }

    /// Counts a trade as a win, a loss or neither by its realized profit,
    /// and adds its profit and fee.
    pub fn record_trade(&mut self, realized_pnl: Dec, fee: Dec)
        requires
            trade_recordable(*old(self), realized_pnl, fee),
        ensures
            final(self).trade_count == old(self).trade_count + 1,
            final(self).wins == old(self).wins + (if units(realized_pnl@) > 0 { 1int } else { 0int }),
            final(self).losses == old(self).losses + (if units(realized_pnl@) < 0 { 1int } else { 0int }),
            Some(final(self).realized_pnl@) == decimal_add(old(self).realized_pnl@, realized_pnl@),
            Some(final(self).fees@) == decimal_add(old(self).fees@, fee@),
            *final(self) == (ReportBuilder {
                trade_count: final(self).trade_count,
                wins: final(self).wins,
                losses: final(self).losses,
                realized_pnl: final(self).realized_pnl,
                fees: final(self).fees,
                ..*old(self)
            }),
    {
        self.trade_count = self.trade_count + 1;
        if realized_pnl.is_positive() {
            self.wins = self.wins + 1;
        } else if realized_pnl.is_negative() {
            self.losses = self.losses + 1;
        }
        self.realized_pnl = self.realized_pnl.checked_add(&realized_pnl).unwrap();
        self.fees = self.fees.checked_add(&fee).unwrap();
    }

    pub fn record_slippage(&mut self, amount: Dec)
        requires
            decimal_add(old(self).slippage@, amount@) is Some,
        ensures
            Some(final(self).slippage@) == decimal_add(old(self).slippage@, amount@),
            *final(self) == (ReportBuilder { slippage: final(self).slippage, ..*old(self) }),
    {
        self.slippage = self.slippage.checked_add(&amount).unwrap();
    }

    pub fn record_hold(&mut self)
        requires
            old(self).hold_count < usize::MAX,
        ensures
            *final(self) == (ReportBuilder { hold_count: (old(self).hold_count + 1) as usize, ..*old(self) }),
    {
        self.hold_count = self.hold_count + 1;
    }

    pub fn record_rejection(&mut self)
        requires
            old(self).rejected_count < usize::MAX,
        ensures
            *final(self) == (ReportBuilder { rejected_count: (old(self).rejected_count + 1) as usize, ..*old(self) }),
    {
        self.rejected_count = self.rejected_count + 1;
    }

    pub fn record_protective_exit(&mut self)
        requires
            old(self).protective_exit_count < usize::MAX,
        ensures
            *final(self) == (ReportBuilder { protective_exit_count: (old(self).protective_exit_count + 1) as usize, ..*old(self) }),
    {
        self.protective_exit_count = self.protective_exit_count + 1;
    }

    /// The report at the ending equity; its profit is the change from the
    /// starting equity.
    pub fn finish(self, ending_equity: Dec) -> (r: SimulationReport)
        requires
            decimal_sub(ending_equity@, self.starting_equity@) is Some,
        ensures
            r.starting_equity == self.starting_equity,
            r.ending_equity == ending_equity,
            Some(r.pnl@) == decimal_sub(ending_equity@, self.starting_equity@),
            r.max_drawdown == self.max_drawdown,
            r.trade_count == self.trade_count && r.wins == self.wins && r.losses == self.losses,
            r.fees == self.fees && r.slippage == self.slippage,
            r.hold_count == self.hold_count && r.rejected_count == self.rejected_count
                && r.protective_exit_count == self.protective_exit_count,
    {
        SimulationReport {
            starting_equity: self.starting_equity,
            ending_equity,
            pnl: ending_equity.checked_sub(&self.starting_equity).unwrap(),
            max_drawdown: self.max_drawdown,
            trade_count: self.trade_count,
            wins: self.wins,
            losses: self.losses,
            fees: self.fees,
            slippage: self.slippage,
            hold_count: self.hold_count,
            rejected_count: self.rejected_count,
            protective_exit_count: self.protective_exit_count,
        }
    }

    /// Records the equity where that cannot overflow; says whether it did.
    pub fn try_record_equity(&mut self, equity: Dec) -> (recorded: bool)
        ensures
            recorded == equity_recordable(*old(self), equity),
            !recorded ==> *final(self) == *old(self),
            recorded ==> final(self).peak_equity@ == next_peak(old(self).peak_equity@, equity@),
            recorded ==> *final(self) == (ReportBuilder { peak_equity: final(self).peak_equity, max_drawdown: final(self).max_drawdown, ..*old(self) }),
    {
        let peak = if self.peak_equity.lt(&equity) { equity } else { self.peak_equity };
        match peak.checked_sub(&equity) {
            Some(_) => {
                self.record_equity(equity);
                true
            },
            None => false,
        }
    }

    /// Records the trade where that cannot overflow; says whether it did.
    pub fn try_record_trade(&mut self, realized_pnl: Dec, fee: Dec) -> (recorded: bool)
        ensures
            recorded == trade_recordable(*old(self), realized_pnl, fee),
            !recorded ==> *final(self) == *old(self),
            recorded ==> final(self).trade_count == old(self).trade_count + 1,
            recorded ==> *final(self) == (ReportBuilder {
                trade_count: final(self).trade_count,
                wins: final(self).wins,
                losses: final(self).losses,
                realized_pnl: final(self).realized_pnl,
                fees: final(self).fees,
                ..*old(self)
            }),
    {
        if self.trade_count == usize::MAX || self.wins == usize::MAX || self.losses == usize::MAX {
            return false;
        }
        if self.realized_pnl.checked_add(&realized_pnl).is_none() || self.fees.checked_add(&fee).is_none() {
            return false;
        }
        self.record_trade(realized_pnl, fee);
        true
    }

    /// Records the slippage where that cannot overflow; says whether it did.
    pub fn try_record_slippage(&mut self, amount: Dec) -> (recorded: bool)
        ensures
            recorded == (decimal_add(old(self).slippage@, amount@) is Some),
            !recorded ==> *final(self) == *old(self),
            recorded ==> Some(final(self).slippage@) == decimal_add(old(self).slippage@, amount@),
            recorded ==> *final(self) == (ReportBuilder { slippage: final(self).slippage, ..*old(self) }),
    {
        if self.slippage.checked_add(&amount).is_none() {
            return false;
        }
        self.record_slippage(amount);
        true
    }

    /// The report, where the profit can be computed.
    pub fn try_finish(self, ending_equity: Dec) -> (r: Option<SimulationReport>)
        ensures
            r is Some <==> decimal_sub(ending_equity@, self.starting_equity@) is Some,
            r matches Some(rep) ==> Some(rep.pnl@) == decimal_sub(ending_equity@, self.starting_equity@)
                && rep.ending_equity == ending_equity && rep.starting_equity == self.starting_equity
                && rep.max_drawdown == self.max_drawdown && rep.trade_count == self.trade_count && rep.wins == self.wins
                && rep.losses == self.losses && rep.fees == self.fees && rep.slippage == self.slippage
                && rep.hold_count == self.hold_count && rep.rejected_count == self.rejected_count
                && rep.protective_exit_count == self.protective_exit_count,
    {
        if ending_equity.checked_sub(&self.starting_equity).is_none() {
            return None;
        }
        Some(self.finish(ending_equity))
    }
}

} // verus!
