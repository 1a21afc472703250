//! The pool of execution contexts: its size from configuration, and the
//! round-robin assignment of contexts to new hashers.

use vstd::prelude::*;

verus! {

/// Devices assumed when the configuration names none.
pub const DEFAULT_DEVICE_COUNT: usize = 1;

/// Contexts per device when the configuration names none.
pub const DEFAULT_KERNELS_PER_DEVICE: usize = 4;

/// Hard ceiling on the number of contexts.
pub const MAX_CONTEXTS: usize = 32;

/// Attempts per hash call when the configuration names none.
pub const DEFAULT_HASH_RETRY: usize = 3600;

/// Seconds to wait after a failed attempt before the next one.
pub const RETRY_BACKOFF_SECS: u64 = 5;

/// Value of the decimal digits `s`, most significant first.
pub open spec fn digits_value(s: Seq<char>) -> int
    decreases s.len(),
{
    if s.len() == 0 {
        0
    } else {
        digits_value(s.drop_last()) * 10 + (s.last() as int - '0' as int)
    }
}

/// A non-empty run of ASCII decimal digits.
pub open spec fn is_digits(s: Seq<char>) -> bool {
    s.len() > 0 && forall|i: int| 0 <= i < s.len() ==> '0' <= #[trigger] s[i] <= '9'
}

/// What reading `s` as an unsigned machine integer gives: an optional `+`,
/// then digits only, with a value that fits.
pub open spec fn parsed_usize(s: Seq<char>) -> Option<usize> {
    let d = if s.len() > 0 && s[0] == '+' {
        s.drop_first()
    } else {
        s
    };
    if is_digits(d) && digits_value(d) <= usize::MAX {
        Some(digits_value(d) as usize)
    } else {
        None
    }
}

/// Relies on `str::parse::<usize>`, which accepts an optional `+` followed
/// by decimal digits whose value fits, and nothing else.
#[verifier::external_body]
fn parse_usize(s: &str) -> (r: Option<usize>)
    ensures
        r == parsed_usize(s@),
{
    s.parse::<usize>().ok()
}

/// A configuration value: the number that `value` holds, or `default`
/// where it is absent or not a number.
pub fn parse_setting(value: &Option<String>, default: usize) -> (r: usize)
    ensures
        r == match value {
            Some(s) => match parsed_usize(s@) {
                Some(n) => n,
                None => default,
            },
            None => default,
        },
{
    match value {
        Some(s) => match parse_usize(s.as_str()) {
            Some(n) => n,
            None => default,
        },
        None => default,
    }
}

/// Number of contexts: devices times contexts per device, capped.
pub open spec fn pool_size_spec(devices: nat, kernels_per_device: nat, cap: nat) -> nat {
    if devices * kernels_per_device < cap {
        devices * kernels_per_device
    } else {
        cap
    }
}

/// Number of contexts for `devices` devices running `kernels_per_device`
/// contexts each, never more than `cap`.
pub fn pool_size(devices: usize, kernels_per_device: usize, cap: usize) -> (r: usize)
    ensures
        r == pool_size_spec(devices as nat, kernels_per_device as nat, cap as nat),
{
    proof {
        assert(devices * kernels_per_device >= 0) by (nonlinear_arith);
    }
    if cap == 0 || kernels_per_device == 0 {
        proof {
            if kernels_per_device == 0 {
                assert(devices * kernels_per_device == 0) by (nonlinear_arith)
                    requires
                        kernels_per_device == 0,
                ;
            }
        }
        return 0;
    }
    let q = (cap - 1) / kernels_per_device;
    if devices > q {
        proof {
            assert(devices * kernels_per_device >= cap) by (nonlinear_arith)
                requires
                    kernels_per_device > 0,
                    devices >= q + 1,
                    q == (cap - 1) / kernels_per_device as int,
                    cap >= 1,
            ;
        }
        cap
    } else {
        proof {
            assert(devices * kernels_per_device <= cap - 1) by (nonlinear_arith)
                requires
                    kernels_per_device > 0,
                    devices <= q,
                    q == (cap - 1) / kernels_per_device as int,
                    cap >= 1,
            ;
        }
        devices * kernels_per_device
    }
}

/// A fixed number of contexts, handed out in turn.
pub struct ContextPool {
    size: usize,
    next: usize,
    issued: Ghost<nat>,
}

impl ContextPool {
    /// Number of contexts.
    pub closed spec fn size_spec(self) -> nat {
        self.size as nat
    }

    /// Number of contexts handed out so far.
    pub closed spec fn issued(self) -> nat {
        self.issued@
    }

    /// The invariant: the next context is the count handed out so far,
    /// modulo the pool size.
    pub closed spec fn wf(self) -> bool {
        self.size >= 1 && self.next == self.issued@ % (self.size as nat)
    }

    /// A pool of `min(devices * kernels_per_device, MAX_CONTEXTS)` contexts;
    /// a configuration that leaves no context is excluded.
    pub fn new(devices: usize, kernels_per_device: usize) -> (r: Self)
        requires
            pool_size_spec(devices as nat, kernels_per_device as nat, MAX_CONTEXTS as nat) >= 1,
        ensures
            r.wf(),
            r.size_spec() == pool_size_spec(devices as nat, kernels_per_device as nat, MAX_CONTEXTS as nat),
            r.issued() == 0,
    {
        let size = pool_size(devices, kernels_per_device, MAX_CONTEXTS);
        proof {
            vstd::arithmetic::div_mod::lemma_small_mod(0, size as nat);
        }
        ContextPool { size, next: 0, issued: Ghost(0) }
    }

    /// Number of contexts.
    pub fn size(&self) -> (r: usize)
        ensures
            r == self.size_spec(),
    {
        self.size
    }

    /// Assigns the next context, round robin; never waits.
    pub fn acquire_next(&mut self) -> (r: usize)
        requires
            old(self).wf(),
        ensures
            final(self).wf(),
            r == old(self).issued() % old(self).size_spec(),
            r < old(self).size_spec(),
            final(self).issued() == old(self).issued() + 1,
            final(self).size_spec() == old(self).size_spec(),
    {
        let r = self.next;
        self.next = if self.next + 1 == self.size {
            0
        } else {
            self.next + 1
        };
        self.issued = Ghost(self.issued@ + 1);
        proof {
            let n = old(self).issued@;
            let s = self.size as nat;
            vstd::arithmetic::div_mod::lemma_mod_add_multiples_vanish((n - n % s) as int, s as int);
            vstd::arithmetic::div_mod::lemma_fundamental_div_mod(n as int, s as int);
            vstd::arithmetic::div_mod::lemma_mod_bound(n as int, s as int);
            if n % s + 1 == s {
                let q = (n / s) as int;
                let m = (n % s) as int;
                assert(n + 1 == (q + 1) * s) by (nonlinear_arith)
                    requires
                        n == s * q + m,
                        m + 1 == s,
                ;
                vstd::arithmetic::div_mod::lemma_mod_multiples_basic(q + 1, s as int);
            } else {
                assert((n + 1) % s == n % s + 1) by {
                    vstd::arithmetic::div_mod::lemma_mod_adds(n as int, 1, s as int);
                    vstd::arithmetic::div_mod::lemma_small_mod(1, s);
                }
            }
        }
        r
    }
}

} // verus!
