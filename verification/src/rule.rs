//! A rule: an identifier, an uninterpreted body, the time of its
//! registration, and running statistics of its executions.

use vstd::prelude::*;
use crate::binary64::{binary64, Binary64, ZERO_BITS};

verus! {

/// A registered rule with its execution statistics. Times are in
/// milliseconds.
#[derive(Debug)]
pub struct Rule {
    pub id: String,
    pub lisp_code: String,
    pub execution_count: u64,
    pub total_execution_time_ms: Binary64,
    pub last_execution_time_ms: Binary64,
    pub created_at: u64,
}

/// The mathematical content of a [`Rule`].
pub struct RuleView {
    pub id: Seq<char>,
    pub lisp_code: Seq<char>,
    pub execution_count: u64,
    pub total_execution_time_ms: Binary64,
    pub last_execution_time_ms: Binary64,
    pub created_at: u64,
}

/// What is reported of one rule: its counters and the mean time of an
/// execution.
#[derive(Debug)]
pub struct RuleStats {
    pub id: String,
    pub execution_count: u64,
    pub total_execution_time_ms: Binary64,
    pub last_execution_time_ms: Binary64,
    pub average_execution_time_ms: Binary64,
    pub created_at: u64,
}

/// The mathematical content of a [`RuleStats`].
pub struct RuleStatsView {
    pub id: Seq<char>,
    pub execution_count: u64,
    pub total_execution_time_ms: Binary64,
    pub last_execution_time_ms: Binary64,
    pub average_execution_time_ms: Binary64,
    pub created_at: u64,
}

impl View for Rule {
    type V = RuleView;

    open spec fn view(&self) -> RuleView {
        RuleView {
            id: self.id@,
            lisp_code: self.lisp_code@,
            execution_count: self.execution_count,
            total_execution_time_ms: self.total_execution_time_ms,
            last_execution_time_ms: self.last_execution_time_ms,
            created_at: self.created_at,
        }
    }
}

impl View for RuleStats {
    type V = RuleStatsView;

    open spec fn view(&self) -> RuleStatsView {
        RuleStatsView {
            id: self.id@,
            execution_count: self.execution_count,
            total_execution_time_ms: self.total_execution_time_ms,
            last_execution_time_ms: self.last_execution_time_ms,
            average_execution_time_ms: self.average_execution_time_ms,
            created_at: self.created_at,
        }
    }
}

impl RuleView {
    /// A rule as it is right after registration: nothing executed yet.
    pub open spec fn fresh(id: Seq<char>, lisp_code: Seq<char>, created_at: u64) -> RuleView {
        RuleView {
            id,
            lisp_code,
            execution_count: 0,
            total_execution_time_ms: binary64(ZERO_BITS),
            last_execution_time_ms: binary64(ZERO_BITS),
            created_at,
        }
    }

    /// The rule after one more execution that took `elapsed_ms`.
    pub open spec fn recorded(self, elapsed_ms: Binary64) -> RuleView {
        RuleView {
            execution_count: (self.execution_count + 1) as u64,
            total_execution_time_ms: self.total_execution_time_ms.sum(elapsed_ms),
            last_execution_time_ms: elapsed_ms,
            ..self
        }
    }

    /// The rule with its statistics back at zero. Identifier, body and time
    /// of registration stay.
    pub open spec fn cleared(self) -> RuleView {
        RuleView {
            execution_count: 0,
            total_execution_time_ms: binary64(ZERO_BITS),
            last_execution_time_ms: binary64(ZERO_BITS),
            ..self
        }
    }

    /// The mean time of an execution: the total time divided by the number
    /// of executions, and zero while there was none.
    pub open spec fn average_execution_time_ms(self) -> Binary64 {
        if self.execution_count > 0 {
            self.total_execution_time_ms.quotient(Binary64::of_u64(self.execution_count))
        } else {
            binary64(ZERO_BITS)
        }
    }

    /// What is reported of the rule.
    pub open spec fn stats(self) -> RuleStatsView {
        RuleStatsView {
            id: self.id,
            execution_count: self.execution_count,
            total_execution_time_ms: self.total_execution_time_ms,
            last_execution_time_ms: self.last_execution_time_ms,
            average_execution_time_ms: self.average_execution_time_ms(),
            created_at: self.created_at,
        }
    }
}

impl Rule {
    /// A rule that was registered at `created_at` and has not run yet.
    pub fn new(id: String, lisp_code: String, created_at: u64) -> (rule: Rule)
        ensures
            rule@ == RuleView::fresh(id@, lisp_code@, created_at),
    {
        Rule {
            id,
            lisp_code,
            execution_count: 0,
            total_execution_time_ms: Binary64::from_bits(ZERO_BITS),
            last_execution_time_ms: Binary64::from_bits(ZERO_BITS),
            created_at,
        }
    }

    /// Counts one more execution, which took `elapsed_ms`.
    pub fn record(&mut self, elapsed_ms: Binary64)
        requires
            old(self).execution_count < u64::MAX,
        ensures
            final(self)@ == old(self)@.recorded(elapsed_ms),
    {
        self.execution_count = self.execution_count + 1;
        self.total_execution_time_ms = self.total_execution_time_ms.plus(elapsed_ms);
        self.last_execution_time_ms = elapsed_ms;
    }

    /// Sets the statistics back to zero.
    pub fn clear(&mut self)
        ensures
            final(self)@ == old(self)@.cleared(),
    {
        self.execution_count = 0;
        self.total_execution_time_ms = Binary64::from_bits(ZERO_BITS);
        self.last_execution_time_ms = Binary64::from_bits(ZERO_BITS);
    }

    /// The counters of the rule and the mean time of an execution.
    pub fn stats(&self) -> (stats: RuleStats)
        ensures
            stats@ == self@.stats(),
    {
        let average = if self.execution_count > 0 {
            self.total_execution_time_ms.over(Binary64::from_u64(self.execution_count))
        } else {
            Binary64::from_bits(ZERO_BITS)
        };
        RuleStats {
            id: self.id.clone(),
            execution_count: self.execution_count,
            total_execution_time_ms: self.total_execution_time_ms,
            last_execution_time_ms: self.last_execution_time_ms,
            average_execution_time_ms: average,
            created_at: self.created_at,
        }
    }
}

impl Clone for Rule {
    fn clone(&self) -> (copy: Rule)
        ensures
            copy@ == self@,
    {
        Rule {
            id: self.id.clone(),
            lisp_code: self.lisp_code.clone(),
            execution_count: self.execution_count,
            total_execution_time_ms: self.total_execution_time_ms,
            last_execution_time_ms: self.last_execution_time_ms,
            created_at: self.created_at,
        }
    }
}

} // verus!
