//! Decisions of the thin runtime layer around the generated bindings:
//! the outcome of native-library initialization, the hand-written linear
//! operation's options record, and what to do with the external formatter's
//! result. The native calls themselves happen outside this crate; these
//! functions take their observable results as plain values.

use vstd::prelude::*;

verus! {

/// Why initialization fails.
#[derive(Clone, Copy, Debug, PartialEq, Eq, Structural)]
pub enum InitError {
    /// The application name holds an interior NUL and cannot become a C
    /// string.
    NulInName,
    /// The native initialization call reported a nonzero status.
    InitFailed,
}

impl InitError {
    /// The diagnostic the failure carries.
    pub fn message(&self) -> (r: &'static str)
        ensures
            *self == InitError::NulInName ==> r@ == "Failed to convert rust string to C string"@,
            *self == InitError::InitFailed ==> r@ == "Failed to init libvips"@,
    {
        match self {
            InitError::NulInName => "Failed to convert rust string to C string",
            InitError::InitFailed => "Failed to init libvips",
        }
    }
}

/// Whether the text holds an interior NUL character.
pub open spec fn has_nul(s: Seq<char>) -> bool {
    exists|i: int| 0 <= i < s.len() && s[i] == '\u{0}'
}

/// Whether `s` holds a NUL character, which no C string can carry.
pub fn contains_nul(s: &str) -> (r: bool)
    ensures
        r == has_nul(s@),
{
    let n = s.unicode_len();
    let mut i: usize = 0;
    while i < n
        invariant
            0 <= i <= n,
            n == s@.len(),
            forall|j: int| 0 <= j < i ==> s@[j] != '\u{0}',
        decreases n - i,
    {
        if s.get_char(i) == '\u{0}' {
            proof {
                assert(s@[i as int] == '\u{0}');
            }
            return true;
        }
        i = i + 1;
    }
    false
}

/// A witness that the native library was initialized for this application.
pub struct VipsApp;

impl VipsApp {
    /// Decides the outcome of initialization without leak detection: the
    /// application name must convert to a C string, and the native
    /// initialization call — whose status the caller passes in — must have
    /// reported zero.
    pub fn default(name: &str, init_code: i32) -> (r: Result<VipsApp, InitError>)
        ensures
            has_nul(name@) ==> r == Err::<VipsApp, InitError>(InitError::NulInName),
            !has_nul(name@) && init_code != 0 ==> r == Err::<VipsApp, InitError>(
                InitError::InitFailed,
            ),
            r is Ok <==> !has_nul(name@) && init_code == 0,
    {
        Self::new(name, false, init_code)
    }

    /// Decides the outcome of initialization. A name with an interior NUL
    /// never reaches the native call and is rejected first; a nonzero
    /// status from the native call fails initialization. The caller enables
    /// the native leak accounting exactly when `detect_leak` holds; that
    /// flag does not affect the outcome.
    #[allow(unused_variables)]
    pub fn new(name: &str, detect_leak: bool, init_code: i32) -> (r: Result<VipsApp, InitError>)
        ensures
            has_nul(name@) ==> r == Err::<VipsApp, InitError>(InitError::NulInName),
            !has_nul(name@) && init_code != 0 ==> r == Err::<VipsApp, InitError>(
                InitError::InitFailed,
            ),
            r is Ok <==> !has_nul(name@) && init_code == 0,
    {
        if contains_nul(name) {
            Err(InitError::NulInName)
        } else if init_code != 0 {
            Err(InitError::InitFailed)
        } else {
            Ok(VipsApp)
        }
    }
}

/// Options of the hand-written linear operation.
#[derive(Clone, Copy, Debug, PartialEq, Eq, Structural)]
pub struct LinearOptions {
    /// Whether the output should be unsigned 8-bit.
    pub uchar: bool,
}

impl Default for LinearOptions {
    /// The defaults: plain output.
    fn default() -> (r: Self)
        ensures
            r.uchar == false,
    {
        LinearOptions { uchar: false }
    }
}

/// What to do with the external formatter's result.
#[derive(Clone, Copy, Debug, PartialEq, Eq, Structural)]
pub enum FormatOutcome {
    /// Exit status zero: use the formatted text.
    Accepted,
    /// The status meaning some lines could not be formatted: use the
    /// partially formatted text.
    AcceptedPartial,
    /// The status meaning the generated text did not parse: the one fatal
    /// formatter outcome.
    Fatal,
    /// Any other result — a missing status, an unknown status, or output
    /// that is not text: keep the unformatted text.
    Fallback,
}

/// Decides what to do with the formatter's result, from its exit status (if
/// any) and whether its output decoded as text. The formatter's absence or
/// failure never aborts generation; only its parse error on the generated
/// text does.
pub fn formatter_outcome(exit_code: Option<i32>, output_is_text: bool) -> (r: FormatOutcome)
    ensures
        !output_is_text ==> r == FormatOutcome::Fallback,
        output_is_text && exit_code == Some(0i32) ==> r == FormatOutcome::Accepted,
        output_is_text && exit_code == Some(3i32) ==> r == FormatOutcome::AcceptedPartial,
        output_is_text && exit_code == Some(2i32) ==> r == FormatOutcome::Fatal,
        output_is_text && !(exit_code == Some(0i32) || exit_code == Some(2i32) || exit_code == Some(
            3i32,
        )) ==> r == FormatOutcome::Fallback,
    {
    if !output_is_text {
        return FormatOutcome::Fallback;
    }
    match exit_code {
        Option::Some(0) => FormatOutcome::Accepted,
        Option::Some(3) => FormatOutcome::AcceptedPartial,
        Option::Some(2) => FormatOutcome::Fatal,
        _ => FormatOutcome::Fallback,
    }
}

} // verus!
