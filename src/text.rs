//! Text form of a Uid: `0x<8 hex digits>_<8 hex digits>`, the sequence id
//! then the event word; the `0x` prefix is optional.
use vstd::prelude::*;
use vstd::string::StrSliceExecFns;
use crate::ledger::Uid;

verus! {

/// Value of a hexadecimal digit, either case.
pub open spec fn hex_digit(c: char) -> Option<int> {
    if '0' <= c && c <= '9' {
        Some(c as int - '0' as int)
    } else if 'a' <= c && c <= 'f' {
        Some(c as int - 'a' as int + 10)
    } else if 'A' <= c && c <= 'F' {
        Some(c as int - 'A' as int + 10)
    } else {
        None
    }
}

/// Whether every character is a hexadecimal digit.
pub open spec fn all_hex(s: Seq<char>) -> bool {
    forall|i: int| 0 <= i < s.len() ==> #[trigger] hex_digit(s[i]) is Some
}

/// Value of a string of hexadecimal digits, most significant first.
pub open spec fn hex_value(s: Seq<char>) -> int
    decreases s.len(),
{
    if s.len() == 0 {
        0
    } else {
        hex_value(s.drop_last()) * 16 + hex_digit(s.last())->Some_0
    }
}

/// Largest value of `n` hexadecimal digits.
pub open spec fn hex_max(n: int) -> int
    decreases n,
{
    if n <= 0 {
        0
    } else {
        hex_max(n - 1) * 16 + 15
    }
}

/// The text after an optional `0x` prefix.
pub open spec fn uid_body(s: Seq<char>) -> Seq<char> {
    if s.len() >= 2 && s[0] == '0' && s[1] == 'x' {
        s.subrange(2, s.len() as int)
    } else {
        s
    }
}

/// Uid named by a text, or `None` when the text does not have the shape.
pub open spec fn parse_uid(s: Seq<char>) -> Option<Uid> {
    let b = uid_body(s);
    if b.len() == 17 && all_hex(b.subrange(0, 8)) && b[8] == '_' && all_hex(b.subrange(9, 17)) {
        Some(
            Uid {
                seq_no: hex_value(b.subrange(0, 8)) as u32,
                event: hex_value(b.subrange(9, 17)) as u32,
            },
        )
    } else {
        None
    }
}

fn digit(c: char) -> (r: Option<u32>)
    ensures
        match hex_digit(c) {
            Some(v) => r == Some(v as u32) && v < 16,
            None => r is None,
        },
{
    if '0' <= c && c <= '9' {
        Some((c as u32) - ('0' as u32))
    } else if 'a' <= c && c <= 'f' {
        Some((c as u32) - ('a' as u32) + 10)
    } else if 'A' <= c && c <= 'F' {
        Some((c as u32) - ('A' as u32) + 10)
    } else {
        None
    }
}

/// Reads the eight hexadecimal digits of `s` that start at `from`.
fn hex8(s: &str, from: usize) -> (r: Option<u32>)
    requires
        from + 8 <= s@.len(),
        s@.len() <= usize::MAX,
    ensures
        all_hex(s@.subrange(from as int, from + 8)) ==> r == Some(
            hex_value(s@.subrange(from as int, from + 8)) as u32,
        ),
        all_hex(s@.subrange(from as int, from + 8)) ==> hex_value(
            s@.subrange(from as int, from + 8),
        ) <= 0xFFFF_FFFF,
        !all_hex(s@.subrange(from as int, from + 8)) ==> r is None,
{
    let ghost w = s@.subrange(from as int, from + 8);
    let mut acc: u32 = 0;
    let mut i: usize = 0;
    proof {
        reveal_with_fuel(hex_max, 9);
        assert(hex_max(8) == 0xFFFF_FFFF);
    }
    while i < 8
        invariant
            from + 8 <= s@.len(),
            s@.len() <= usize::MAX,
            w == s@.subrange(from as int, from + 8),
            i <= 8,
            all_hex(w.subrange(0, i as int)),
            acc == hex_value(w.subrange(0, i as int)),
            hex_value(w.subrange(0, i as int)) <= hex_max(i as int),
            hex_max(8) == 0xFFFF_FFFF,
        decreases 8 - i,
    {
        let c = s.get_char(from + i);
        assert(c == w[i as int]);
        match digit(c) {
            None => {
                return None;
            },
            Some(d) => {
                proof {
                    lemma_hex_max_mono(i as int + 1, 8);
                    assert(w.subrange(0, i + 1).drop_last() == w.subrange(0, i as int));
                }
                acc = acc * 16 + d;
                proof {
                    assert forall|j: int| 0 <= j < i + 1 implies #[trigger] hex_digit(
                        w.subrange(0, i + 1)[j],
                    ) is Some by {
                        if j < i {
                            assert(w.subrange(0, i + 1)[j] == w.subrange(0, i as int)[j]);
                        }
                    }
                }
            },
        }
        i += 1;
    }
    proof {
        assert(w.subrange(0, 8) == w);
    }
    Some(acc)
}

proof fn lemma_hex_max_mono(a: int, b: int)
    requires
        0 <= a <= b,
    ensures
        0 <= hex_max(a) <= hex_max(b),
    decreases b,
{
    if b > 0 {
        if a < b {
            lemma_hex_max_mono(a, b - 1);
        } else {
            lemma_hex_max_mono(a - 1, b - 1);
        }
    }
}

/// Why a Uid text was refused.
#[derive(Clone, Copy, Debug, PartialEq, Eq, Structural)]
pub enum UidParseError {
    /// Not 17 characters after the optional `0x` prefix.
    Length,
    /// A character that is not a hexadecimal digit, or no `_` at offset 8.
    Format,
}

impl Uid {
    /// Parses the text form of a Uid; any other text is refused.
    pub fn parse(s: &str) -> (r: Result<Uid, UidParseError>)
        ensures
            match parse_uid(s@) {
                Some(u) => r == Ok::<Uid, UidParseError>(u),
                None => r == Err::<Uid, UidParseError>(
                    if uid_body(s@).len() != 17 {
                        UidParseError::Length
                    } else {
                        UidParseError::Format
                    },
                ),
            },
    {
        let n = s.unicode_len();
        let start: usize = if n >= 2 && s.get_char(0) == '0' && s.get_char(1) == 'x' {
            2
        } else {
            0
        };
        let ghost b = uid_body(s@);
        proof {
            assert(b == s@.subrange(start as int, s@.len() as int));
        }
        if n - start != 17 {
            return Err(UidParseError::Length);
        }
        proof {
            assert(b.subrange(0, 8) == s@.subrange(start as int, start + 8));
            assert(b.subrange(9, 17) == s@.subrange(start + 9, start + 17));
            assert(b[8] == s@[start + 8]);
        }
        let seq_no = match hex8(s, start) {
            Some(v) => v,
            None => {
                return Err(UidParseError::Format);
            },
        };
        if s.get_char(start + 8) != '_' {
            return Err(UidParseError::Format);
        }
        let event = match hex8(s, start + 9) {
            Some(v) => v,
            None => {
                return Err(UidParseError::Format);
            },
        };
        Ok(Uid { seq_no, event })
    }
}

} // verus!
