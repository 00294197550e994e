//! Spans of time as whole seconds and nanoseconds, the plain values that the
//! game's frame and dodge timers are kept in.
use vstd::prelude::*;

verus! {

/// Nanoseconds in a second.
pub const NANOS_PER_SEC: u32 = 1_000_000_000;

/// The longest span, in nanoseconds: `u64::MAX` seconds and 999 999 999
/// nanoseconds, where adding spans saturates.
pub open spec fn span_max() -> nat {
    18446744073709551615nat * 1_000_000_000nat + 999_999_999nat
}

/// `a + b`, saturating at [`span_max`].
pub open spec fn saturating_span_add(a: nat, b: nat) -> nat {
    if a + b <= span_max() {
        a + b
    } else {
        span_max()
    }
}

/// A span of time: `secs` seconds and `nanos` nanoseconds, with `nanos`
/// below one second.
#[derive(Clone, Copy, Debug, PartialEq, Eq)]
pub struct TimeSpan {
    secs: u64,
    nanos: u32,
}

impl View for TimeSpan {
    type V = nat;

    /// The span in nanoseconds.
    closed spec fn view(&self) -> nat {
        self.secs as nat * 1_000_000_000nat + self.nanos as nat
    }
}

proof fn lemma_split_nanos(secs: u64, nanos: u32)
    requires
        nanos < NANOS_PER_SEC,
    ensures
        ((secs as nat * 1_000_000_000nat + nanos as nat) / 1_000_000_000nat) == secs,
        ((secs as nat * 1_000_000_000nat + nanos as nat) % 1_000_000_000nat) == nanos,
        secs as nat * 1_000_000_000nat + nanos as nat <= span_max(),
{
    vstd::arithmetic::div_mod::lemma_fundamental_div_mod_converse(
        (secs as nat * 1_000_000_000nat + nanos as nat) as int,
        1_000_000_000int,
        secs as int,
        nanos as int,
    );
    assert(secs as nat * 1_000_000_000nat <= 18446744073709551615nat * 1_000_000_000nat)
        by (nonlinear_arith)
        requires
            secs <= 18446744073709551615u64,
    ;
}

/// A number of nanoseconds is its whole seconds and the nanoseconds beyond.
pub(crate) proof fn lemma_parts(n: nat)
    ensures
        (n / 1_000_000_000nat) * 1_000_000_000nat + n % 1_000_000_000nat == n,
{
    vstd::arithmetic::div_mod::lemma_fundamental_div_mod(n as int, 1_000_000_000int);
}

impl TimeSpan {
    #[verifier::type_invariant]
    closed spec fn well_formed(self) -> bool {
        self.nanos < NANOS_PER_SEC
    }

    /// The span of `secs` seconds and `nanos` nanoseconds.
    pub fn new(secs: u64, nanos: u32) -> (r: TimeSpan)
        requires
            nanos < NANOS_PER_SEC,
        ensures
            r@ == secs as nat * 1_000_000_000nat + nanos as nat,
    {
        TimeSpan { secs, nanos }
    }

    /// The span of `millis` milliseconds.
    pub fn from_millis(millis: u64) -> (r: TimeSpan)
        ensures
            r@ == millis as nat * 1_000_000nat,
    {
        let secs = millis / 1000;
        let nanos = ((millis % 1000) as u32) * 1_000_000;
        assert(secs as nat * 1_000_000_000nat + nanos as nat == millis as nat * 1_000_000nat)
            by (nonlinear_arith)
            requires
                secs == millis / 1000,
                nanos == (millis % 1000) * 1_000_000,
        ;
        TimeSpan { secs, nanos }
    }

    /// Whole seconds of the span.
    pub fn secs(&self) -> (r: u64)
        ensures
            r == self@ / 1_000_000_000nat,
    {
        proof {
            use_type_invariant(self);
            lemma_split_nanos(self.secs, self.nanos);
        }
        self.secs
    }

    /// The nanoseconds of the span beyond its whole seconds.
    pub fn subsec_nanos(&self) -> (r: u32)
        ensures
            r == self@ % 1_000_000_000nat,
            r < NANOS_PER_SEC,
    {
        proof {
            use_type_invariant(self);
            lemma_split_nanos(self.secs, self.nanos);
        }
        self.nanos
    }

    /// Whether this span is at least as long as `other`.
    pub fn at_least(&self, other: &TimeSpan) -> (r: bool)
        ensures
            r == (self@ >= other@),
    {
        proof {
            use_type_invariant(self);
            use_type_invariant(other);
            lemma_split_nanos(self.secs, self.nanos);
            lemma_split_nanos(other.secs, other.nanos);
            if self.secs < other.secs {
                assert(self.secs as nat * 1_000_000_000nat + 1_000_000_000nat <= other.secs as nat
                    * 1_000_000_000nat) by (nonlinear_arith)
                    requires
                        self.secs < other.secs,
                ;
            }
            if self.secs > other.secs {
                assert(other.secs as nat * 1_000_000_000nat + 1_000_000_000nat <= self.secs as nat
                    * 1_000_000_000nat) by (nonlinear_arith)
                    requires
                        self.secs > other.secs,
                ;
            }
        }
        self.secs > other.secs || (self.secs == other.secs && self.nanos >= other.nanos)
    }
}

} // verus!
