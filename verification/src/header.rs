use vstd::prelude::*;
use vstd::arithmetic::power2::{pow2, lemma_pow2_strictly_increases, lemma2_to64};
use vstd::bits::lemma_u32_shl_is_mul;
use vstd::utf8::{valid_utf8, decode_utf8};

verus! {

/// Offset of the first title byte in the cartridge header.
pub const TITLE_START: usize = 0x134;
/// Offset just past the last title byte.
pub const TITLE_END: usize = 0x144;
/// Offset of the cartridge type byte.
pub const CARTRIDGE_TYPE_OFFSET: usize = 0x147;
/// Offset of the ROM size code.
pub const ROM_SIZE_OFFSET: usize = 0x148;
/// Offset of the RAM size code.
pub const RAM_SIZE_OFFSET: usize = 0x149;

/// The characters that `String::from_utf8_lossy` decodes from `bytes`:
/// each maximal invalid sequence becomes U+FFFD.
pub uninterp spec fn utf8_lossy(bytes: Seq<u8>) -> Seq<char>;

/// Decodes bytes as UTF-8 with std's `String::from_utf8_lossy`, and hands the
/// characters back one by one.
/// Trusted: the result is what that function decodes from these bytes, and
/// on valid UTF-8 it is the plain decoding of the bytes (std documents that
/// valid input is returned unchanged).
#[verifier::external_body]
fn decode_lossy(bytes: &[u8]) -> (chars: Vec<char>)
    ensures
        chars@ == utf8_lossy(bytes@),
        valid_utf8(bytes@) ==> chars@ == decode_utf8(bytes@),
{
    String::from_utf8_lossy(bytes).chars().collect()
}

/// `s` without the NUL characters at its end.
pub open spec fn trim_trailing_nuls(s: Seq<char>) -> Seq<char>
    decreases s.len(),
{
    if s.len() > 0 && s.last() == '\0' {
        trim_trailing_nuls(s.drop_last())
    } else {
        s
    }
}

/// Trimming keeps a prefix, removes only NULs, and leaves no NUL at the end.
pub proof fn lemma_trim_trailing_nuls(s: Seq<char>)
    ensures
        trim_trailing_nuls(s).len() <= s.len(),
        trim_trailing_nuls(s) == s.subrange(0, trim_trailing_nuls(s).len() as int),
        forall|i: int| trim_trailing_nuls(s).len() <= i < s.len() ==> s[i] == '\0',
        trim_trailing_nuls(s).len() == 0 || trim_trailing_nuls(s).last() != '\0',
    decreases s.len(),
{
    if s.len() > 0 && s.last() == '\0' {
        let t = s.drop_last();
        lemma_trim_trailing_nuls(t);
        assert(trim_trailing_nuls(s) == trim_trailing_nuls(t));
        assert(t.subrange(0, trim_trailing_nuls(t).len() as int) =~= s.subrange(
            0,
            trim_trailing_nuls(t).len() as int,
        ));
        assert forall|i: int| trim_trailing_nuls(s).len() <= i < s.len() implies s[i] == '\0' by {
            if i < s.len() - 1 {
                assert(t[i] == s[i]);
            }
        }
    } else {
        assert(s.subrange(0, s.len() as int) =~= s);
    }
}

/// The title that the header shows: the sixteen title bytes, decoded as
/// UTF-8 with invalid sequences replaced, without trailing NULs.
pub open spec fn title_of(rom: Seq<u8>) -> Seq<char> {
    trim_trailing_nuls(utf8_lossy(rom.subrange(TITLE_START as int, TITLE_END as int)))
}

/// The name of a cartridge type code.
pub open spec fn type_label(code: u8) -> Seq<char> {
    if code == 0x00 {
        "ROM ONLY"@
    } else if code == 0x01 {
        "MBC1"@
    } else if code == 0x02 {
        "MBC1+RAM"@
    } else if code == 0x03 {
        "MBC1+RAM+BATTERY"@
    } else if code == 0x0F {
        "MBC3+TIMER+BATTERY"@
    } else if code == 0x10 {
        "MBC3+TIMER+RAM+BATTERY"@
    } else if code == 0x11 {
        "MBC3"@
    } else if code == 0x12 {
        "MBC3+RAM"@
    } else if code == 0x13 {
        "MBC3+RAM+BATTERY"@
    } else {
        "Unknown"@
    }
}

proof fn lemma_trim_step(s: Seq<char>, n: int)
    requires
        0 < n <= s.len(),
        s[n - 1] == '\0',
    ensures
        trim_trailing_nuls(s.subrange(0, n)) == trim_trailing_nuls(s.subrange(0, n - 1)),
{
    assert(s.subrange(0, n).drop_last() =~= s.subrange(0, n - 1));
}

/// Removes the NUL characters at the end of `chars`.
pub fn trim_nuls(chars: &Vec<char>) -> (trimmed: Vec<char>)
    ensures
        trimmed@ == trim_trailing_nuls(chars@),
        trimmed@ == chars@.subrange(0, trimmed@.len() as int),
        forall|i: int| trimmed@.len() <= i < chars@.len() ==> chars@[i] == '\0',
        trimmed@.len() == 0 || trimmed@.last() != '\0',
{
    proof {
        lemma_trim_trailing_nuls(chars@);
    }
    let mut n: usize = chars.len();
    proof {
        assert(chars@.subrange(0, n as int) =~= chars@);
    }
    while n > 0 && chars[n - 1] == '\0'
        invariant
            n <= chars.len(),
            trim_trailing_nuls(chars@.subrange(0, n as int)) == trim_trailing_nuls(chars@),
        decreases n,
    {
        proof {
            lemma_trim_step(chars@, n as int);
        }
        n = n - 1;
    }
    let mut trimmed: Vec<char> = Vec::new();
    let mut i: usize = 0;
    while i < n
        invariant
            i <= n <= chars.len(),
            trimmed@ == chars@.subrange(0, i as int),
        decreases n - i,
    {
        trimmed.push(chars[i]);
        i = i + 1;
    }
    proof {
        assert(trimmed@ =~= chars@.subrange(0, n as int));
    }
    trimmed
}

/// Whether `rom` is long enough for its header to be shown.
pub fn has_header(rom: &[u8]) -> (shown: bool)
    ensures
        shown == (rom@.len() > 0x150),
{
    rom.len() > 0x150
}

/// The cartridge title stored in the header.
pub fn cartridge_title(rom: &[u8]) -> (title: Vec<char>)
    requires
        rom@.len() >= TITLE_END,
    ensures
        title@ == title_of(rom@),
{
    let bytes = vstd::slice::slice_subrange(rom, TITLE_START, TITLE_END);
    let chars = decode_lossy(bytes);
    trim_nuls(&chars)
}

/// The name of the cartridge type code found at 0x147.
pub fn cartridge_type_name(code: u8) -> (name: &'static str)
    ensures
        name@ == type_label(code),
{
    match code {
        0x00 => "ROM ONLY",
        0x01 => "MBC1",
        0x02 => "MBC1+RAM",
        0x03 => "MBC1+RAM+BATTERY",
        0x0F => "MBC3+TIMER+BATTERY",
        0x10 => "MBC3+TIMER+RAM+BATTERY",
        0x11 => "MBC3",
        0x12 => "MBC3+RAM",
        0x13 => "MBC3+RAM+BATTERY",
        _ => "Unknown",
    }
}

/// The ROM size in KiB that the size code at 0x148 announces: 32 KiB
/// doubled `code` times.
pub fn rom_size_kb(code: u8) -> (kb: u32)
    requires
        code <= 25,
    ensures
        kb == 32 * pow2(code as nat),
{
    let shift: u32 = code as u32;
    proof {
        lemma2_to64();
        if shift < 25 {
            lemma_pow2_strictly_increases(shift as nat, 25);
        }
        lemma_u32_shl_is_mul(1, shift);
    }
    (1u32 << shift) * 32
}

} // verus!
