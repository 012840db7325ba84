//! Validation of the discrete simulation settings, the fatal error kinds of
//! the driver, and the choice of the initial-condition source.

use crate::mesh::GridSize;
use vstd::prelude::*;

verus! {

/// Fatal error kinds of the simulation driver.
#[derive(Clone, Copy, Debug, PartialEq, Eq, Structural)]
pub enum SimError {
    /// A setting is out of range: an odd spatial grid axis, a particle head
    /// larger than the ensemble, a missing or unreadable worker count.
    ConfigInvalid,
    /// A resource could not be set up: transform planner or thread pool.
    InitializationFailure,
    /// The supplied initial ensemble does not hold the configured number of
    /// particles.
    InitialConditionMismatch { given: usize, expected: usize },
    /// A resume was requested without a snapshot to resume from.
    ResumeMissing,
    /// The output queue overflowed while its writer was gone.
    IoBackpressureOverflow,
}

impl SimError {
    /// A short description of the error kind.
    pub fn message(&self) -> (r: String)
        ensures
            *self is ConfigInvalid ==> r@ == "invalid configuration"@,
            *self is InitializationFailure ==> r@ == "initialization failure"@,
            *self is InitialConditionMismatch ==> r@ == "initial condition mismatch"@,
            *self is ResumeMissing ==> r@ == "cannot resume without a snapshot"@,
            *self is IoBackpressureOverflow ==> r@ == "output queue overflowed"@,
    {
        match self {
            SimError::ConfigInvalid => String::from_str("invalid configuration"),
            SimError::InitializationFailure => String::from_str("initialization failure"),
            SimError::InitialConditionMismatch { .. } => {
                String::from_str("initial condition mismatch")
            },
            SimError::ResumeMissing => String::from_str("cannot resume without a snapshot"),
            SimError::IoBackpressureOverflow => String::from_str("output queue overflowed"),
        }
    }
}

/// Where the initial particle ensemble comes from.
#[derive(Clone, Copy, Debug, PartialEq, Eq, Structural)]
pub enum InitType {
    /// Particles are piped in.
    Stdin,
    /// Particles are drawn from a configured distribution.
    Distribution,
    /// The run resumes from a snapshot named in the settings.
    Resume,
    /// Particles are read from a file named in the settings.
    File,
}

/// A grid is acceptable when every axis holds a cell and both transverse
/// spatial axes hold an even number of cells (the even-sampled Oseen kernel
/// assumes it); in the quasi-two-dimensional mode the third spatial axis
/// must hold exactly one cell.
pub open spec fn grid_acceptable(g: GridSize, quasi2d: bool) -> bool {
    &&& g.wf()
    &&& g.x % 2 == 0
    &&& g.y % 2 == 0
    &&& (quasi2d ==> g.z == 1)
}

/// Checks the grid against `grid_acceptable`.
pub fn validate_grid(g: &GridSize, quasi2d: bool) -> (r: Result<(), SimError>)
    ensures
        r is Ok <==> grid_acceptable(*g, quasi2d),
        r is Err ==> r->Err_0 == SimError::ConfigInvalid,
{
    if g.x >= 1 && g.y >= 1 && g.z >= 1 && g.phi >= 1 && g.theta >= 1
        && g.x % 2 == 0 && g.y % 2 == 0 && (!quasi2d || g.z == 1) {
        Ok(())
    } else {
        Err(SimError::ConfigInvalid)
    }
}

/// Checks that a configured particle head does not exceed the ensemble:
/// more particles cannot be written than the ensemble holds.
pub fn validate_particle_head(head: Option<usize>, n_particles: usize) -> (r: Result<
    (),
    SimError,
>)
    ensures
        r is Ok <==> (head matches Some(h) ==> h <= n_particles),
        r is Err ==> r->Err_0 == SimError::ConfigInvalid,
{
    match head {
        Some(h) if h > n_particles => Err(SimError::ConfigInvalid),
        _ => Ok(()),
    }
}

/// Checks that a supplied initial ensemble holds exactly the configured
/// number of particles.
pub fn validate_initial_particle_count(given: usize, expected: usize) -> (r: Result<
    (),
    SimError,
>)
    ensures
        r is Ok <==> given == expected,
        r is Err ==> r->Err_0 == (SimError::InitialConditionMismatch { given, expected }),
{
    if given == expected {
        Ok(())
    } else {
        Err(SimError::InitialConditionMismatch { given, expected })
    }
}

/// Picks the initial-condition source: an ensemble piped in beats
/// everything; without a file named in the settings a resume is impossible
/// and particles are drawn from the configured distribution; with one, the
/// file is either resumed from or read as an ensemble.
pub fn choose_init_type(piped: bool, has_init_file: bool, resume: bool) -> (r: Result<
    InitType,
    SimError,
>)
    ensures
        piped ==> r == Ok::<InitType, SimError>(InitType::Stdin),
        !piped && !has_init_file && resume ==> r == Err::<InitType, SimError>(
            SimError::ResumeMissing,
        ),
        !piped && !has_init_file && !resume ==> r == Ok::<InitType, SimError>(
            InitType::Distribution,
        ),
        !piped && has_init_file && resume ==> r == Ok::<InitType, SimError>(InitType::Resume),
        !piped && has_init_file && !resume ==> r == Ok::<InitType, SimError>(InitType::File),
{
    if piped {
        Ok(InitType::Stdin)
    } else if !has_init_file {
        if resume {
            Err(SimError::ResumeMissing)
        } else {
            Ok(InitType::Distribution)
        }
    } else if resume {
        Ok(InitType::Resume)
    } else {
        Ok(InitType::File)
    }
}

/// A decimal digit.
pub open spec fn is_digit(c: char) -> bool {
    '0' <= c && c <= '9'
}

/// Value of a decimal digit.
pub open spec fn digit_val(c: char) -> int {
    c as int - '0' as int
}

/// Every character is a decimal digit.
pub open spec fn all_digits(s: Seq<char>) -> bool {
    forall|i: int| 0 <= i < s.len() ==> is_digit(#[trigger] s[i])
}

/// Value of a sequence of decimal digits, most significant first.
pub open spec fn digits_val(s: Seq<char>) -> int
    decreases s.len(),
{
    if s.len() == 0 {
        0
    } else {
        digits_val(s.drop_last()) * 10 + digit_val(s.last())
    }
}

/// The digits of a numeral: what follows an optional leading plus sign.
pub open spec fn digits_part(s: Seq<char>) -> Seq<char> {
    if s.len() > 0 && s[0] == '+' {
        s.skip(1)
    } else {
        s
    }
}

/// The value of a digit sequence is nonnegative.
proof fn lemma_digits_val_nonneg(s: Seq<char>)
    requires
        all_digits(s),
    ensures
        digits_val(s) >= 0,
    decreases s.len(),
{
    if s.len() > 0 {
        lemma_digits_val_nonneg(s.drop_last());
    }
}

/// Dropping trailing digits cannot increase the value of a numeral.
proof fn lemma_digits_val_prefix_le(s: Seq<char>, j: int)
    requires
        all_digits(s),
        0 <= j <= s.len(),
    ensures
        digits_val(s.take(j)) <= digits_val(s),
    decreases s.len() - j,
{
    if j < s.len() {
        lemma_digits_val_prefix_le(s, j + 1);
        assert(s.take(j + 1).drop_last() =~= s.take(j));
        assert(forall|i: int| 0 <= i < j + 1 ==> is_digit(#[trigger] s.take(j + 1)[i]));
        lemma_digits_val_nonneg(s.take(j));
        assert(digits_val(s.take(j)) * 10 >= digits_val(s.take(j))) by (nonlinear_arith)
            requires digits_val(s.take(j)) >= 0;
    } else {
        assert(s.take(j) =~= s);
    }
}

/// Parses a decimal numeral: an optional plus sign followed by one or more
/// digits. Returns its value when it fits the machine word, and nothing on
/// an empty or malformed numeral or one whose value is too large. This is
/// how the worker count is read from its environment string.
pub fn parse_usize(s: &str) -> (r: Option<usize>)
    ensures
        r is Some <==> (digits_part(s@).len() > 0 && all_digits(digits_part(s@))
            && digits_val(digits_part(s@)) <= usize::MAX),
        r matches Some(v) ==> v == digits_val(digits_part(s@)),
{
    let n = s.unicode_len();
    let start: usize = if n > 0 && s.get_char(0) == '+' {
        1
    } else {
        0
    };
    let ghost d = digits_part(s@);
    proof {
        assert(d =~= s@.skip(start as int));
    }
    if n == start {
        return None;
    }
    let mut val: usize = 0;
    let mut i: usize = start;
    while i < n
        invariant
            start <= i <= n,
            n == s@.len(),
            d == s@.skip(start as int),
            d == digits_part(s@),
            d.len() == n - start,
            forall|j: int| 0 <= j < i - start ==> is_digit(#[trigger] d[j]),
            val == digits_val(d.take(i - start)),
            val <= usize::MAX,
        decreases n - i,
    {
        let c = s.get_char(i);
        let code = c as u32;
        if code < 48 || code > 57 {
            proof {
                assert(d[i - start] == s@[i as int]);
                assert(!is_digit(d[i - start]));
                assert(!all_digits(d));
            }
            return None;
        }
        let digit = (code - 48) as usize;
        proof {
            assert(d.take(i - start + 1).drop_last() =~= d.take(i - start));
            assert(d.take(i - start + 1).last() == s@[i as int]);
        }
        if val > (usize::MAX - digit) / 10 {
            proof {
                let t = i - start + 1;
                vstd::arithmetic::div_mod::lemma_fundamental_div_mod(
                    usize::MAX as int - digit, 10);
                vstd::arithmetic::div_mod::lemma_mod_division_less_than_divisor(
                    usize::MAX as int - digit, 10);
                assert(val * 10 + digit > usize::MAX) by (nonlinear_arith)
                    requires val > (usize::MAX as int - digit) / 10 && 0 <= digit <= 9
                        && ((usize::MAX as int - digit) / 10) * 10 + (usize::MAX as int - digit) % 10
                            == usize::MAX as int - digit
                        && 0 <= (usize::MAX as int - digit) % 10 < 10;
                assert(d.take(t).last() == s@[i as int]);
                assert(digits_val(d.take(t)) == val * 10 + digit);
                if all_digits(d) {
                    lemma_digits_val_prefix_le(d, t);
                    assert(digits_val(d) > usize::MAX);
                }
            }
            return None;
        }
        proof {
            vstd::arithmetic::div_mod::lemma_fundamental_div_mod(
                usize::MAX as int - digit, 10);
            vstd::arithmetic::div_mod::lemma_mod_division_less_than_divisor(
                usize::MAX as int - digit, 10);
            assert(val * 10 + digit <= usize::MAX) by (nonlinear_arith)
                requires val <= (usize::MAX as int - digit) / 10 && 0 <= digit
                    && ((usize::MAX as int - digit) / 10) * 10 + (usize::MAX as int - digit) % 10
                        == usize::MAX as int - digit
                    && 0 <= (usize::MAX as int - digit) % 10;
        }
        val = val * 10 + digit;
        i = i + 1;
    }
    proof {
        assert(d.take(n - start) =~= d);
    }
    Some(val)
}

} // verus!
