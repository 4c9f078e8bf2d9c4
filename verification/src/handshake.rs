//! The spawn-time handle handshake.
//!
//! The parent process creates the pipe before spawning the child and passes
//! it exactly two positional arguments: a fixed identity token the child must
//! match exactly, and the decimal numeric value of the inherited pipe handle.
//! Validating those arguments is the child's first act; a missing or invalid
//! argument is a fatal startup error.  The validation and the decimal parse
//! live here; reconstructing the handle from the accepted number is the
//! caller's platform-specific step.

use vstd::prelude::*;

verus! {

/// The identity token the parent passes and the child matches exactly.
pub open spec fn spec_unique_ident() -> Seq<char> {
    "global_listener_app::MainApp::UNIQUE_IDENT"@
}

/// The identity token, for both sides of the spawn.
pub fn unique_ident() -> (s: &'static str)
    ensures
        s@ == spec_unique_ident(),
{
    "global_listener_app::MainApp::UNIQUE_IDENT"
}

/// Why a child refused its startup arguments.
#[derive(Debug, Clone, Copy, PartialEq, Eq, Structural)]
pub enum HandshakeError {
    /// Fewer than two positional arguments were passed.
    MissingArgs,
    /// The first positional argument is not the identity token.
    WrongIdent,
    /// The second positional argument is not the decimal value of a handle.
    BadHandle,
}

/// A decimal digit.
pub open spec fn is_digit(c: char) -> bool {
    48 <= c as u32 <= 57
}

/// The value of a decimal digit.
pub open spec fn digit_value(c: char) -> int {
    c as u32 - 48
}

/// A nonempty string of decimal digits.
pub open spec fn is_decimal(s: Seq<char>) -> bool {
    s.len() > 0 && forall|i: int| 0 <= i < s.len() ==> is_digit(#[trigger] s[i])
}

/// The number a string of decimal digits denotes.
pub open spec fn decimal_value(s: Seq<char>) -> int
    decreases s.len(),
{
    if s.len() == 0 {
        0
    } else {
        decimal_value(s.drop_last()) * 10 + digit_value(s.last())
    }
}

/// A digit string denotes a nonnegative number.
proof fn lemma_decimal_nonneg(s: Seq<char>)
    requires
        forall|i: int| 0 <= i < s.len() ==> is_digit(#[trigger] s[i]),
    ensures
        decimal_value(s) >= 0,
    decreases s.len(),
{
    if s.len() > 0 {
        lemma_decimal_nonneg(s.drop_last());
        assert(decimal_value(s.drop_last()) * 10 >= 0) by (nonlinear_arith)
            requires decimal_value(s.drop_last()) >= 0;
    }
}

/// No prefix of a digit string denotes more than the whole.
proof fn lemma_decimal_prefix_bound(s: Seq<char>, k: int)
    requires
        forall|i: int| 0 <= i < s.len() ==> is_digit(#[trigger] s[i]),
        0 <= k <= s.len(),
    ensures
        0 <= decimal_value(s.take(k)) <= decimal_value(s),
    decreases s.len() - k,
{
    assert(forall|i: int| 0 <= i < k ==> is_digit(#[trigger] s.take(k)[i]));
    lemma_decimal_nonneg(s.take(k));
    if k == s.len() {
        assert(s.take(k) =~= s);
    } else {
        assert(s.take(k + 1).drop_last() =~= s.take(k));
        assert(s.take(k + 1).last() == s[k]);
        assert(decimal_value(s.take(k)) * 10 >= decimal_value(s.take(k))) by (nonlinear_arith)
            requires decimal_value(s.take(k)) >= 0;
        lemma_decimal_prefix_bound(s, k + 1);
    }
}

/// Parses a nonempty all-digit decimal string into a machine word.  Returns
/// the denoted value exactly when there is one and it fits; anything else —
/// empty, a non-digit anywhere, or a value too wide — is refused.
pub fn parse_decimal(s: &str) -> (r: Option<usize>)
    ensures
        r is Some <==> is_decimal(s@) && decimal_value(s@) <= usize::MAX,
        r matches Some(v) ==> v == decimal_value(s@),
{
    let len = s.unicode_len();
    if len == 0 {
        return None;
    }
    let mut acc: usize = 0;
    let mut i: usize = 0;
    while i < len
        invariant
            len == s@.len(),
            0 < len,
            i <= len,
            forall|j: int| 0 <= j < i ==> is_digit(#[trigger] s@[j]),
            acc == decimal_value(s@.take(i as int)),
        decreases len - i,
    {
        let c = s.get_char(i);
        let u = c as u32;
        if u < 48 || u > 57 {
            return None;
        }
        let d: usize = ((u - 48) as u8) as usize;
        proof {
            assert(s@.take(i as int + 1).drop_last() =~= s@.take(i as int));
            assert(s@.take(i as int + 1).last() == s@[i as int]);
        }
        let next = match acc.checked_mul(10) {
            None => None,
            Some(t) => t.checked_add(d),
        };
        match next {
            None => {
                proof {
                    if is_decimal(s@) && decimal_value(s@) <= usize::MAX {
                        lemma_decimal_prefix_bound(s@, i as int + 1);
                    }
                }
                return None;
            },
            Some(v) => {
                acc = v;
            },
        }
        i = i + 1;
    }
    proof {
        assert(s@.take(len as int) =~= s@);
    }
    Some(acc)
}

/// Validates a child's startup arguments: the program path, then the
/// identity token, then the decimal value of the inherited handle.  Returns
/// the handle value exactly when both arguments check out, and says which
/// check failed otherwise.
pub fn parse_handle_args(args: &Vec<String>) -> (r: Result<usize, HandshakeError>)
    ensures
        args@.len() < 3 ==> r == Err::<usize, HandshakeError>(HandshakeError::MissingArgs),
        args@.len() >= 3 && args@[1]@ != spec_unique_ident() ==> r == Err::<
            usize,
            HandshakeError,
        >(HandshakeError::WrongIdent),
        args@.len() >= 3 && args@[1]@ == spec_unique_ident() && !(is_decimal(args@[2]@)
            && decimal_value(args@[2]@) <= usize::MAX) ==> r == Err::<usize, HandshakeError>(
            HandshakeError::BadHandle,
        ),
        args@.len() >= 3 && args@[1]@ == spec_unique_ident() && is_decimal(args@[2]@)
            && decimal_value(args@[2]@) <= usize::MAX ==> r == Ok::<usize, HandshakeError>(
            decimal_value(args@[2]@) as usize,
        ),
{
    if args.len() < 3 {
        return Err(HandshakeError::MissingArgs);
    }
    let ident = unique_ident().to_owned();
    if !args[1].eq(&ident) {
        return Err(HandshakeError::WrongIdent);
    }
    match parse_decimal(args[2].as_str()) {
        None => Err(HandshakeError::BadHandle),
        Some(v) => Ok(v),
    }
}

} // verus!
