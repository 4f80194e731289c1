//! Record identifiers: the storage engine names every record by a
//! twelve-byte identifier written as twenty-four hex digits.

use vstd::prelude::*;

verus! {

/// A record identifier, held as the integer that the twenty-four hex
/// digits of its text form denote.
#[derive(Clone, Copy, PartialEq, Eq, Structural, Debug)]
pub struct Oid {
    pub value: u128,
}

/// Sixteen to the `n`: how many identifier values `n` hex digits can write.
pub open spec fn pow16(n: nat) -> nat
    decreases n,
{
    if n == 0 {
        1
    } else {
        16 * pow16((n - 1) as nat)
    }
}

impl Oid {
    /// An identifier value fits in twelve bytes.
    pub open spec fn wf(self) -> bool {
        (self.value as nat) < pow16(24)
    }
}

pub proof fn lemma_pow16_24_value()
    ensures
        pow16(24) == 0x1000000000000000000000000,
{
    reveal_with_fuel(pow16, 25);
}

proof fn lemma_pow16_increases(a: nat, b: nat)
    requires
        a <= b,
    ensures
        pow16(a) <= pow16(b),
    decreases b,
{
    if a < b {
        lemma_pow16_increases(a, (b - 1) as nat);
    }
}

/// Whether `c` is one of the digits the identifier's text form may use.
pub open spec fn is_hex_digit(c: char) -> bool {
    ||| ('0' as u32) <= (c as u32) <= ('9' as u32)
    ||| ('a' as u32) <= (c as u32) <= ('f' as u32)
    ||| ('A' as u32) <= (c as u32) <= ('F' as u32)
}

/// The value a single hex digit denotes.
pub open spec fn hex_digit_value(c: char) -> int {
    if ('0' as u32) <= (c as u32) <= ('9' as u32) {
        (c as u32) - ('0' as u32)
    } else if ('a' as u32) <= (c as u32) <= ('f' as u32) {
        (c as u32) - ('a' as u32) + 10
    } else {
        (c as u32) - ('A' as u32) + 10
    }
}

/// The integer a sequence of hex digits denotes, most significant first.
pub open spec fn oid_hex_value(s: Seq<char>) -> int
    decreases s.len(),
{
    if s.len() == 0 {
        0
    } else {
        oid_hex_value(s.drop_last()) * 16 + hex_digit_value(s.last())
    }
}

/// A well-formed identifier text: exactly twenty-four hex digits.
pub open spec fn is_oid_hex(s: Seq<char>) -> bool {
    &&& s.len() == 24
    &&& forall|i: int| 0 <= i < s.len() ==> is_hex_digit(#[trigger] s[i])
}

/// The identifier an identifier text denotes.
pub open spec fn oid_of_hex(s: Seq<char>) -> Oid {
    Oid { value: oid_hex_value(s) as u128 }
}

proof fn lemma_hex_value_bound(s: Seq<char>)
    requires
        forall|i: int| 0 <= i < s.len() ==> is_hex_digit(#[trigger] s[i]),
    ensures
        0 <= oid_hex_value(s) < pow16(s.len()),
    decreases s.len(),
{
    if s.len() > 0 {
        assert(is_hex_digit(s.last()));
        lemma_hex_value_bound(s.drop_last());
    }
}

/// Reads a twenty-four-digit hex identifier text into an identifier.
/// Returns the identifier exactly when the text is well formed.
pub fn parse_oid(s: &str) -> (r: Option<Oid>)
    ensures
        r is Some <==> is_oid_hex(s@),
        r matches Some(o) ==> o == oid_of_hex(s@) && o.wf(),
{
    let n = s.unicode_len();
    if n != 24 {
        return None;
    }
    let mut value: u128 = 0;
    let mut i: usize = 0;
    while i < 24
        invariant
            s@.len() == 24,
            0 <= i <= 24,
            forall|m: int| 0 <= m < i ==> is_hex_digit(#[trigger] s@[m]),
            value == oid_hex_value(s@.take(i as int)),
            (value as nat) < pow16(i as nat),
        decreases 24 - i,
    {
        let c = s.get_char(i);
        let u = c as u32;
        let d: u32 = if 0x30 <= u && u <= 0x39 {
            u - 0x30
        } else if 0x61 <= u && u <= 0x66 {
            u - 0x61 + 10
        } else if 0x41 <= u && u <= 0x46 {
            u - 0x41 + 10
        } else {
            proof {
                assert(!is_hex_digit(s@[i as int]));
            }
            return None;
        };
        proof {
            assert(is_hex_digit(s@[i as int]));
            assert(d == hex_digit_value(s@[i as int]));
            lemma_pow16_increases((i + 1) as nat, 24);
            lemma_pow16_24_value();
            s@.lemma_take_succ_push(i as int);
            assert(s@.take(i as int + 1).drop_last() =~= s@.take(i as int));
        }
        value = value * 16 + d as u128;
        i += 1;
    }
    proof {
        assert(s@.take(24) =~= s@);
    }
    Some(Oid { value })
}

/// Generates a fresh identifier for a newly created record.
///
/// Relies on bson's `ObjectId::new`: it builds twelve bytes from the current
/// time, a per-process value and a counter, so the result depends on the
/// moment of the call and nothing here can be said of which identifier comes
/// back, beyond that it fits in twelve bytes.
#[verifier::external_body]
pub fn fresh_oid() -> (r: Oid)
    ensures
        r.wf(),
{
    let bytes = mongodb::bson::oid::ObjectId::new().bytes();
    let mut wide = [0u8; 16];
    wide[4..16].copy_from_slice(&bytes);
    Oid { value: u128::from_be_bytes(wide) }
}

} // verus!
