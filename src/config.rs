use vstd::prelude::*;
use vstd::string::StringSliceAdditionalSpecFns;

verus! {

/// One of six fixed payload size classes carried by each echo request.
#[derive(Clone, Copy, Debug, PartialEq, Eq, Structural)]
pub enum Payload {
    Tiny,
    Small,
    Medium,
    Large,
    Huge,
    Giant,
}

/// The size class at a position of the list Tiny, Small, Medium, Large, Huge, Giant.
pub open spec fn payload_at(index: int) -> Payload {
    if index == 0 {
        Payload::Tiny
    } else if index == 1 {
        Payload::Small
    } else if index == 2 {
        Payload::Medium
    } else if index == 3 {
        Payload::Large
    } else if index == 4 {
        Payload::Huge
    } else {
        Payload::Giant
    }
}

impl Payload {
    /// The number of payload bytes of each class: 16, 64, 256, 1024, 4096 and 16384.
    pub open spec fn spec_size(self) -> nat {
        match self {
            Payload::Tiny => 16,
            Payload::Small => 64,
            Payload::Medium => 256,
            Payload::Large => 1024,
            Payload::Huge => 4096,
            Payload::Giant => 16384,
        }
    }

    pub fn size(&self) -> (r: usize)
        ensures
            r == self.spec_size(),
    {
        match self {
            Payload::Tiny => 16,
            Payload::Small => 64,
            Payload::Medium => 256,
            Payload::Large => 1024,
            Payload::Huge => 4096,
            Payload::Giant => 16384,
        }
    }
}

impl Payload {
    /// The name of the class.
    pub open spec fn spec_label(self) -> Seq<char> {
        match self {
            Payload::Tiny => "Tiny"@,
            Payload::Small => "Small"@,
            Payload::Medium => "Medium"@,
            Payload::Large => "Large"@,
            Payload::Huge => "Huge"@,
            Payload::Giant => "Giant"@,
        }
    }

    pub fn label(&self) -> (r: &'static str)
        ensures
            r@ == self.spec_label(),
    {
        match self {
            Payload::Tiny => "Tiny",
            Payload::Small => "Small",
            Payload::Medium => "Medium",
            Payload::Large => "Large",
            Payload::Huge => "Huge",
            Payload::Giant => "Giant",
        }
    }
}

/// The size class at `index` of the list Tiny, Small, Medium, Large, Huge, Giant.
pub fn index_to_payload(index: usize) -> (r: Payload)
    requires
        index < 6,
    ensures
        r == payload_at(index as int),
{
    match index {
        0 => Payload::Tiny,
        1 => Payload::Small,
        2 => Payload::Medium,
        3 => Payload::Large,
        4 => Payload::Huge,
        _ => Payload::Giant,
    }
}

pub open spec fn is_digit(c: char) -> bool {
    '0' <= c && c <= '9'
}

/// The number that a string of decimal digits writes.
pub open spec fn decimal_value(s: Seq<char>) -> int
    decreases s.len(),
{
    if s.len() == 0 {
        0
    } else {
        decimal_value(s.drop_last()) * 10 + (s.last() as int - '0' as int)
    }
}

/// The number of seconds that a configuration field holds: a non-empty string
/// of decimal digits with a value from 1 to `u32::MAX`; anything else is refused.
pub open spec fn seconds_of(s: Seq<char>) -> Option<u32> {
    if s.len() > 0 && (forall|i: int| 0 <= i < s.len() ==> is_digit(#[trigger] s[i]))
        && 1 <= decimal_value(s) <= u32::MAX {
        Some(decimal_value(s) as u32)
    } else {
        None
    }
}

proof fn lemma_prefix_value_bounded(s: Seq<char>, k: int)
    requires
        0 <= k <= s.len(),
        forall|i: int| 0 <= i < s.len() ==> is_digit(#[trigger] s[i]),
    ensures
        0 <= decimal_value(s.take(k)) <= decimal_value(s),
    decreases s.len(),
{
    if s.len() > 0 {
        if k == s.len() {
            assert(s.take(k) =~= s);
            lemma_prefix_value_bounded(s.drop_last(), 0);
        } else {
            assert(s.drop_last().take(k) =~= s.take(k));
            lemma_prefix_value_bounded(s.drop_last(), k);
        }
    } else {
        assert(s.take(k) =~= s);
    }
}

/// Reads a positive whole number of seconds from a configuration field.
pub fn parse_seconds(text: &str) -> (r: Option<u32>)
    ensures
        r == seconds_of(text@),
{
    if !text.is_ascii() {
        proof {
            if text@.len() > 0 && (forall|i: int| 0 <= i < text@.len() ==> is_digit(#[trigger] text@[i])) {
                assert forall|i: int| 0 <= i < text@.len() implies '\0' <= #[trigger] text@[i] <= '\u{7f}' by {
                    assert(is_digit(text@[i]));
                }
                assert(vstd::utf8::is_ascii_chars(text@));
            }
        }
        return None;
    }
    proof {
        vstd::string::is_ascii_spec_bytes(text);
    }
    assert(text.spec_bytes().len() == text@.len());
    let bytes = text.as_bytes();
    if bytes.len() == 0 {
        return None;
    }
    let mut acc: u64 = 0;
    let mut i: usize = 0;
    while i < bytes.len()
        invariant
            bytes@ == text.spec_bytes(),
            bytes@.len() == text@.len(),
            forall|k: int| 0 <= k < text@.len() ==> bytes@[k] == text@[k] as u8,
            vstd::utf8::is_ascii_chars(text@),
            i <= bytes@.len(),
            forall|k: int| 0 <= k < i ==> is_digit(#[trigger] text@[k]),
            acc == decimal_value(text@.take(i as int)),
            acc <= u32::MAX,
        decreases bytes@.len() - i,
    {
        let b = bytes[i];
        let ghost c = text@[i as int];
        assert(b == c as u8);
        if b < 48 || b > 57 {
            assert(!is_digit(c));
            return None;
        }
        assert(is_digit(c));
        assert(text@.take(i + 1).drop_last() =~= text@.take(i as int));
        assert(decimal_value(text@.take(i + 1)) == acc * 10 + (b - 48));
        acc = acc * 10 + (b - 48) as u64;
        i = i + 1;
        if acc > 4294967295 {
            proof {
                if forall|k: int| 0 <= k < text@.len() ==> is_digit(#[trigger] text@[k]) {
                    lemma_prefix_value_bounded(text@, i as int);
                }
            }
            return None;
        }
    }
    assert(text@.take(i as int) =~= text@);
    if acc == 0 {
        return None;
    }
    Some(acc as u32)
}

} // verus!
