//! Gemmini's normalisation statistics: the running sums, counts and maxima
//! that layer normalisation and softmax gather as rows move out. The
//! integer part is here; the two steps that end in a floating-point value
//! (an inverse standard deviation, an inverse sum of exponentials) are
//! handed back to the caller, which stores their bit patterns.
use vstd::prelude::*;
use crate::arch::gemmini::gemmini::{Gemmini, GemminiState, NormCmd, NORM_STAT_IDS};
use crate::arch::gemmini::datapath::{iexp, iexp_fits};
use crate::arch::gemmini::matmul::wrapping_sum;

verus! {

/// What a normalisation step leaves to its caller.
#[derive(Clone, Copy, Debug, PartialEq, Eq, Structural)]
pub enum NormFollowUp {
    /// Nothing.
    Nothing,
    /// Store the inverse square root of `variance` (1 where it is zero).
    InvStddev { variance: i32 },
    /// Store 127 divided by `sum`.
    InvSumExp { sum: i32 },
}

/// The statistic the state selects.
pub open spec fn stat_of(s: GemminiState) -> int {
    s.norm_stat_id as int
}

/// The statistic restarts: it was marked for reset.
pub open spec fn restarts(s: GemminiState) -> bool {
    s.norm_reset@[stat_of(s)]
}

/// The sum the step starts from.
pub open spec fn sum_start(s: GemminiState) -> i32 {
    if restarts(s) {
        0
    } else {
        s.norm_sum@[stat_of(s)]
    }
}

/// The count the step starts from.
pub open spec fn count_start(s: GemminiState) -> i32 {
    if restarts(s) {
        0
    } else {
        s.norm_count@[stat_of(s)]
    }
}

/// The running maximum the step starts from.
pub open spec fn max_start(s: GemminiState) -> i32 {
    if restarts(s) {
        i32::MIN
    } else {
        s.norm_running_max@[stat_of(s)]
    }
}

/// The step adds to the sum and the count of elements.
pub open spec fn counts(cmd: NormCmd) -> bool {
    cmd == NormCmd::SUM || cmd == NormCmd::MEAN || cmd == NormCmd::VARIANCE || cmd == NormCmd::INV_STDDEV
}

/// The step sums squared deviations from the mean.
pub open spec fn squares(cmd: NormCmd) -> bool {
    cmd == NormCmd::VARIANCE || cmd == NormCmd::INV_STDDEV
}

/// The step sums exponentials.
pub open spec fn exponentials(cmd: NormCmd) -> bool {
    cmd == NormCmd::SUM_EXP || cmd == NormCmd::INV_SUM_EXP
}

/// The argument of the exponential of element `v`.
pub open spec fn exp_arg(s: GemminiState, v: i32) -> i32 {
    v.wrapping_sub(max_start(s))
}

/// The terms the step adds to the sum: the elements, their squared
/// deviations from the mean, or their exponentials relative to the
/// maximum; wrapping.
pub open spec fn norm_terms(s: GemminiState, x: Seq<i32>, len: int, cmd: NormCmd) -> Seq<i32> {
    if cmd == NormCmd::SUM || cmd == NormCmd::MEAN {
        x.take(len)
    } else if squares(cmd) {
        Seq::new(
            len as nat,
            |i: int|
                {
                    let d = x[i].wrapping_sub(s.norm_mean@[stat_of(s)]);
                    d.wrapping_mul(d)
                },
        )
    } else if exponentials(cmd) {
        Seq::new(
            len as nat,
            |i: int| iexp(exp_arg(s, x[i]), s.igelu_qb, s.igelu_qc, s.qln2, s.qln2_inv) as i32,
        )
    } else {
        Seq::empty()
    }
}

/// The sum after the step.
pub open spec fn sum_after(s: GemminiState, x: Seq<i32>, len: int, cmd: NormCmd) -> i32 {
    wrapping_sum(sum_start(s), norm_terms(s, x, len, cmd))
}

/// The count after the step.
pub open spec fn count_after(s: GemminiState, len: int, cmd: NormCmd) -> i32 {
    if counts(cmd) {
        count_start(s).wrapping_add(len as i32)
    } else {
        count_start(s)
    }
}

/// The larger of `init` and the elements of `xs`.
pub open spec fn seq_max(init: i32, xs: Seq<i32>) -> i32
    decreases xs.len(),
{
    if xs.len() == 0 {
        init
    } else if xs.last() > seq_max(init, xs.drop_last()) {
        xs.last()
    } else {
        seq_max(init, xs.drop_last())
    }
}

/// `a` divided by the non-zero `b`, rounded toward zero.
pub open spec fn div_toward_zero(a: int, b: int) -> int {
    let q = (if a < 0 {
        -a
    } else {
        a
    }) / (if b < 0 {
        -b
    } else {
        b
    });
    if (a < 0) == (b < 0) {
        q
    } else {
        -q
    }
}

/// The quotient of the sum by the count after the step.
pub open spec fn norm_quotient(s: GemminiState, x: Seq<i32>, len: int, cmd: NormCmd) -> i32 {
    div_toward_zero(sum_after(s, x, len, cmd) as int, count_after(s, len, cmd) as int) as i32
}

/// The running maximum after the step: raised by a maximum step, reset by
/// the step that finishes a softmax.
pub open spec fn running_max_after(s: GemminiState, x: Seq<i32>, len: int, cmd: NormCmd) -> i32 {
    if cmd == NormCmd::MAX {
        seq_max(max_start(s), x.take(len))
    } else if cmd == NormCmd::INV_SUM_EXP {
        i32::MIN
    } else {
        max_start(s)
    }
}

/// What the step leaves to the caller.
pub open spec fn follow_up(s: GemminiState, x: Seq<i32>, len: int, cmd: NormCmd) -> NormFollowUp {
    if cmd == NormCmd::INV_STDDEV {
        NormFollowUp::InvStddev { variance: norm_quotient(s, x, len, cmd) }
    } else if cmd == NormCmd::INV_SUM_EXP {
        NormFollowUp::InvSumExp { sum: sum_after(s, x, len, cmd) }
    } else {
        NormFollowUp::Nothing
    }
}

/// The step's statistic exists and its exponentials fit 32 bits.
pub open spec fn norm_terms_ok(s: GemminiState, x: Seq<i32>, len: int, cmd: NormCmd) -> bool {
    &&& stat_of(s) < NORM_STAT_IDS
    &&& 0 <= len <= x.len()
    &&& len <= 0xFFFF
    &&& exponentials(cmd) ==> forall|i: int|
        0 <= i < len ==> iexp_fits(#[trigger] exp_arg(s, x[i]), s.igelu_qb, s.igelu_qc, s.qln2, s.qln2_inv)
}

/// The step's statistic exists, its exponentials fit 32 bits and its
/// division is defined.
pub open spec fn norm_ok(s: GemminiState, x: Seq<i32>, len: int, cmd: NormCmd) -> bool {
    &&& norm_terms_ok(s, x, len, cmd)
    &&& (cmd == NormCmd::MEAN || cmd == NormCmd::INV_STDDEV) ==> {
        &&& count_after(s, len, cmd) != 0
        &&& !(sum_after(s, x, len, cmd) == i32::MIN && count_after(s, len, cmd) == -1)
    }
}

/// `a` divided by `b`, rounded toward zero.
fn div_toward_zero_exec(a: i32, b: i32) -> (q: i32)
    requires
        b != 0,
        !(a == i32::MIN && b == -1),
    ensures
        q == div_toward_zero(a as int, b as int),
{
    let ua: u64 = if a < 0 {
        (-(a as i64)) as u64
    } else {
        a as u64
    };
    let ub: u64 = if b < 0 {
        (-(b as i64)) as u64
    } else {
        b as u64
    };
    let uq = ua / ub;
    assert(uq <= ua) by (nonlinear_arith)
        requires
            uq == ua / ub,
            ub >= 1,
    ;
    if ub == 1 {
        assert(uq == ua) by (nonlinear_arith)
            requires
                uq == ua / ub,
                ub == 1,
        ;
    } else {
        assert(uq <= ua / 2) by (nonlinear_arith)
            requires
                uq == ua / ub,
                ub >= 2,
        ;
    }
    if (a < 0) == (b < 0) {
        uq as i32
    } else {
        (-(uq as i64)) as i32
    }
}

impl Gemmini {
    /// The sum of the step's terms, from `sum_start`.
    fn norm_sum_of(&self, x: &Vec<i32>, len: usize, cmd: NormCmd, start: i32, max0: i32) -> (r: i32)
        requires
            self.wf(),
            norm_terms_ok(self.state, x@, len as int, cmd),
            start == sum_start(self.state),
            max0 == max_start(self.state),
        ensures
            r == sum_after(self.state, x@, len as int, cmd),
    {
        let stat = self.state.norm_stat_id as usize;
        let ghost terms = norm_terms(self.state, x@, len as int, cmd);
        let mut sum = start;
        if cmd == NormCmd::SUM || cmd == NormCmd::MEAN || cmd == NormCmd::VARIANCE || cmd == NormCmd::INV_STDDEV
            || cmd == NormCmd::SUM_EXP || cmd == NormCmd::INV_SUM_EXP {
            let mean = self.state.norm_mean[stat];
            let mut i: usize = 0;
            assert(terms.take(0) =~= Seq::<i32>::empty());
            while i < len
                invariant
                    self.wf(),
                    norm_terms_ok(self.state, x@, len as int, cmd),
                    stat == stat_of(self.state),
                    mean == self.state.norm_mean@[stat as int],
                    max0 == max_start(self.state),
                    terms == norm_terms(self.state, x@, len as int, cmd),
                    terms.len() == len,
                    i <= len,
                    sum == wrapping_sum(start, terms.take(i as int)),
                decreases len - i,
            {
                let t: i32 = if cmd == NormCmd::SUM || cmd == NormCmd::MEAN {
                    x[i]
                } else if cmd == NormCmd::VARIANCE || cmd == NormCmd::INV_STDDEV {
                    let d = x[i].wrapping_sub(mean);
                    d.wrapping_mul(d)
                } else {
                    assert(iexp_fits(
                        exp_arg(self.state, x@[i as int]),
                        self.state.igelu_qb,
                        self.state.igelu_qc,
                        self.state.qln2,
                        self.state.qln2_inv,
                    ));
                    Gemmini::apply_iexp(
                        x[i].wrapping_sub(max0),
                        self.state.igelu_qb,
                        self.state.igelu_qc,
                        self.state.qln2,
                        self.state.qln2_inv,
                    )
                };
                assert(t == terms[i as int]);
                sum = sum.wrapping_add(t);
                assert(terms.take(i + 1).drop_last() =~= terms.take(i as int));
                i = i + 1;
            }
            assert(terms.take(len as int) =~= terms);
        } else {
            assert(terms =~= Seq::<i32>::empty());
        }
        sum
    }

    /// The larger of `init` and the first `len` elements of `x`.
    fn max_of(x: &Vec<i32>, len: usize, init: i32) -> (r: i32)
        requires
            len <= x@.len(),
        ensures
            r == seq_max(init, x@.take(len as int)),
    {
        let mut m = init;
        let mut i: usize = 0;
        assert(x@.take(0) =~= Seq::<i32>::empty());
        while i < len
            invariant
                len <= x@.len(),
                i <= len,
                m == seq_max(init, x@.take(i as int)),
            decreases len - i,
        {
            assert(x@.take(i + 1).drop_last() =~= x@.take(i as int));
            if x[i] > m {
                m = x[i];
            }
            i = i + 1;
        }
        m
    }

    /// Runs normalisation step `cmd` over the first `len` elements of `x`
    /// for the selected statistic: restarts it if it was marked, updates its
    /// sum, count, maximum and mean as the step says (see `sum_after`,
    /// `count_after`, `running_max_after`, `norm_quotient`), marks it for
    /// restart after a finishing step, and answers whether the row is
    /// written out (only for `RESET`) and what is left to the caller.
    #[verifier::rlimit(40)]
    pub fn apply_norm(&mut self, x: &Vec<i32>, len: usize, cmd: NormCmd) -> (r: (bool, NormFollowUp))
        requires
            old(self).wf(),
            norm_ok(old(self).state, x@, len as int, cmd),
        ensures
            final(self).wf(),
            r.0 == (cmd == NormCmd::RESET),
            r.1 == follow_up(old(self).state, x@, len as int, cmd),
            ({
                let s = old(self).state;
                let t = final(self).state;
                let k = stat_of(s);
                &&& t.norm_sum@ == s.norm_sum@.update(k, sum_after(s, x@, len as int, cmd))
                &&& t.norm_count@ == s.norm_count@.update(k, count_after(s, len as int, cmd))
                &&& t.norm_running_max@ == s.norm_running_max@.update(k, running_max_after(s, x@, len as int, cmd))
                &&& t.norm_max@ == (if exponentials(cmd) {
                    s.norm_max@.update(k, max_start(s))
                } else {
                    s.norm_max@
                })
                &&& t.norm_mean@ == (if cmd == NormCmd::MEAN {
                    s.norm_mean@.update(k, norm_quotient(s, x@, len as int, cmd))
                } else {
                    s.norm_mean@
                })
                &&& t.norm_reset@ == s.norm_reset@.update(
                    k,
                    cmd == NormCmd::RESET || cmd == NormCmd::MEAN || cmd == NormCmd::INV_STDDEV,
                )
                &&& t == (GemminiState {
                    norm_sum: t.norm_sum,
                    norm_count: t.norm_count,
                    norm_running_max: t.norm_running_max,
                    norm_max: t.norm_max,
                    norm_mean: t.norm_mean,
                    norm_reset: t.norm_reset,
                    ..s
                })
            }),
    {
        let ghost s0 = self.state;
        let stat = self.state.norm_stat_id as usize;
        let marked = self.state.norm_reset[stat];
        let start: i32 = if marked {
            0
        } else {
            self.state.norm_sum[stat]
        };
        let count0: i32 = if marked {
            0
        } else {
            self.state.norm_count[stat]
        };
        let max0: i32 = if marked {
            i32::MIN
        } else {
            self.state.norm_running_max[stat]
        };
        let sum = self.norm_sum_of(x, len, cmd, start, max0);
        let count: i32 = if cmd == NormCmd::SUM || cmd == NormCmd::MEAN || cmd == NormCmd::VARIANCE || cmd
            == NormCmd::INV_STDDEV {
            count0.wrapping_add(len as i32)
        } else {
            count0
        };
        let running_max: i32 = if cmd == NormCmd::MAX {
            Gemmini::max_of(x, len, max0)
        } else if cmd == NormCmd::INV_SUM_EXP {
            i32::MIN
        } else {
            max0
        };
        let quotient: i32 = if cmd == NormCmd::MEAN || cmd == NormCmd::INV_STDDEV {
            div_toward_zero_exec(sum, count)
        } else {
            0
        };
        self.state.norm_sum.set(stat, sum);
        self.state.norm_count.set(stat, count);
        self.state.norm_running_max.set(stat, running_max);
        if cmd == NormCmd::SUM_EXP || cmd == NormCmd::INV_SUM_EXP {
            self.state.norm_max.set(stat, max0);
        }
        if cmd == NormCmd::MEAN {
            self.state.norm_mean.set(stat, quotient);
        }
        self.state.norm_reset.set(
            stat,
            cmd == NormCmd::RESET || cmd == NormCmd::MEAN || cmd == NormCmd::INV_STDDEV,
        );
        let follow = if cmd == NormCmd::INV_STDDEV {
            NormFollowUp::InvStddev { variance: quotient }
        } else if cmd == NormCmd::INV_SUM_EXP {
            NormFollowUp::InvSumExp { sum }
        } else {
            NormFollowUp::Nothing
        };
        (cmd == NormCmd::RESET, follow)
    }

    /// Stores the bit pattern of the selected statistic's inverse standard
    /// deviation.
    pub fn set_norm_inv_stddev(&mut self, bits: u32)
        requires
            old(self).wf(),
            stat_of(old(self).state) < NORM_STAT_IDS,
        ensures
            final(self).wf(),
            final(self).state.norm_inv_stddev@ == old(self).state.norm_inv_stddev@.update(
                stat_of(old(self).state),
                bits,
            ),
            final(self).state == (GemminiState {
                norm_inv_stddev: final(self).state.norm_inv_stddev,
                ..old(self).state
            }),
    {
        let stat = self.state.norm_stat_id as usize;
        self.state.norm_inv_stddev.set(stat, bits);
    }

    /// Stores the bit pattern of the selected statistic's inverse sum of
    /// exponentials.
    pub fn set_norm_inv_sum_exp(&mut self, bits: u32)
        requires
            old(self).wf(),
            stat_of(old(self).state) < NORM_STAT_IDS,
        ensures
            final(self).wf(),
            final(self).state.norm_inv_sum_exp@ == old(self).state.norm_inv_sum_exp@.update(
                stat_of(old(self).state),
                bits,
            ),
            final(self).state == (GemminiState {
                norm_inv_sum_exp: final(self).state.norm_inv_sum_exp,
                ..old(self).state
            }),
    {
        let stat = self.state.norm_stat_id as usize;
        self.state.norm_inv_sum_exp.set(stat, bits);
    }
}


impl Gemmini {
    /// Whether normalisation step `cmd` over the first `len` elements of
    /// `x` is defined (see `norm_ok`).
    pub fn norm_in_range(&self, x: &Vec<i32>, len: usize, cmd: NormCmd) -> (ok: bool)
        requires
            self.wf(),
        ensures
            ok == norm_ok(self.state, x@, len as int, cmd),
    {
        if self.state.norm_stat_id as usize >= NORM_STAT_IDS || len > x.len() || len > 0xFFFF {
            return false;
        }
        let stat = self.state.norm_stat_id as usize;
        let marked = self.state.norm_reset[stat];
        let start: i32 = if marked {
            0
        } else {
            self.state.norm_sum[stat]
        };
        let count0: i32 = if marked {
            0
        } else {
            self.state.norm_count[stat]
        };
        let max0: i32 = if marked {
            i32::MIN
        } else {
            self.state.norm_running_max[stat]
        };
        if cmd == NormCmd::SUM_EXP || cmd == NormCmd::INV_SUM_EXP {
            let mut i: usize = 0;
            while i < len
                invariant
                    self.wf(),
                    exponentials(cmd),
                    len <= x@.len(),
                    len <= 0xFFFF,
                    stat == stat_of(self.state),
                    stat < NORM_STAT_IDS,
                    max0 == max_start(self.state),
                    i <= len,
                    forall|j: int|
                        0 <= j < i ==> iexp_fits(
                            #[trigger] exp_arg(self.state, x@[j]),
                            self.state.igelu_qb,
                            self.state.igelu_qc,
                            self.state.qln2,
                            self.state.qln2_inv,
                        ),
                decreases len - i,
            {
                if !Gemmini::iexp_in_range(
                    x[i].wrapping_sub(max0),
                    self.state.igelu_qb,
                    self.state.igelu_qc,
                    self.state.qln2,
                    self.state.qln2_inv,
                ) {
                    assert(!iexp_fits(
                        exp_arg(self.state, x@[i as int]),
                        self.state.igelu_qb,
                        self.state.igelu_qc,
                        self.state.qln2,
                        self.state.qln2_inv,
                    ));
                    return false;
                }
                i = i + 1;
            }
        }
        if cmd == NormCmd::MEAN || cmd == NormCmd::INV_STDDEV {
            let sum = self.norm_sum_of(x, len, cmd, start, max0);
            let count = count0.wrapping_add(len as i32);
            count != 0 && !(sum == i32::MIN && count == -1)
        } else {
            true
        }
    }
}

} // verus!
