//! Station and channel names: fixed 16-byte ASCII windows, space-padded
//! on the right, turned into fully-qualified column names
//! `<station>_<idcode>_<channel>`.

use vstd::prelude::*;

verus! {

/// `s` without its trailing ASCII spaces; internal spaces stay.
pub open spec fn spec_trim_right(s: Seq<u8>) -> Seq<u8>
    decreases s.len(),
{
    if s.len() == 0 {
        s
    } else if s[s.len() - 1] == 32 {
        spec_trim_right(s.drop_last())
    } else {
        s
    }
}

/// `s` with every byte outside the ASCII range replaced by `?`. The
/// standard allows only ASCII here; the replacement keeps the name
/// functions total on arbitrary wire bytes.
pub open spec fn spec_ascii_clean(s: Seq<u8>) -> Seq<u8> {
    s.map_values(|b: u8| if b < 0x80 { b } else { 63u8 })
}

/// The decimal digits of `x`, most significant first.
pub open spec fn spec_decimal(x: nat) -> Seq<u8>
    decreases x,
{
    if x < 10 {
        seq![(48 + x) as u8]
    } else {
        spec_decimal(x / 10).push((48 + x % 10) as u8)
    }
}

/// The characters with the same code points as the bytes of `s`.
pub open spec fn spec_chars_of(s: Seq<u8>) -> Seq<char> {
    s.map_values(|b: u8| b as char)
}

/// A 16-byte name window as its final text: trimmed, cleaned, decoded.
pub open spec fn spec_window_text(s: Seq<u8>) -> Seq<char> {
    spec_chars_of(spec_ascii_clean(spec_trim_right(s)))
}

/// Relies on String::from_utf8: a sequence of bytes below 0x80 is valid
/// UTF-8 and decodes to the characters with the same code points.
#[verifier::external_body]
pub(crate) fn ascii_string(bytes: Vec<u8>) -> (r: String)
    requires
        forall|i: int| 0 <= i < bytes@.len() ==> bytes@[i] < 0x80,
    ensures
        r@ == spec_chars_of(bytes@),
{
    String::from_utf8(bytes).unwrap_or_default()
}

/// Every byte the cleaning step produces is in the ASCII range.
pub proof fn lemma_clean_is_ascii(s: Seq<u8>)
    ensures
        forall|i: int| 0 <= i < spec_ascii_clean(s).len() ==> spec_ascii_clean(s)[i] < 0x80,
{
}

/// Appends `s[start .. start + len]`, trimmed of trailing spaces and
/// cleaned to ASCII, to `out`.
pub fn push_name_bytes(out: &mut Vec<u8>, s: &[u8], start: usize, len: usize)
    requires
        start + len <= s@.len(),
    ensures
        final(out)@ =~= old(out)@ + spec_ascii_clean(
            spec_trim_right(s@.subrange(start as int, start + len)),
        ),
{
    let n = s.len();
    assert(start + len <= n);
    let mut end = start + len;
    while end > start && s[end - 1] == 32
        invariant
            start <= end <= start + len,
            start + len <= s@.len(),
            spec_trim_right(s@.subrange(start as int, start + len)) == spec_trim_right(
                s@.subrange(start as int, end as int),
            ),
        decreases end,
    {
        proof {
            assert(s@.subrange(start as int, end as int).drop_last() =~= s@.subrange(
                start as int,
                end - 1,
            ));
        }
        end = end - 1;
    }
    let ghost trimmed = spec_trim_right(s@.subrange(start as int, start + len));
    proof {
        if end == start {
            assert(s@.subrange(start as int, end as int) =~= Seq::<u8>::empty());
        }
        assert(trimmed == s@.subrange(start as int, end as int));
    }
    let mut i = start;
    while i < end
        invariant
            start <= i <= end,
            end <= s@.len(),
            trimmed == s@.subrange(start as int, end as int),
            out@ =~= old(out)@ + spec_ascii_clean(s@.subrange(start as int, i as int)),
        decreases end - i,
    {
        let b = s[i];
        if b < 0x80 {
            out.push(b);
        } else {
            out.push(63);
        }
        proof {
            assert(spec_ascii_clean(s@.subrange(start as int, i + 1)) =~= spec_ascii_clean(
                s@.subrange(start as int, i as int),
            ).push(if s@[i as int] < 0x80 {
                s@[i as int]
            } else {
                63u8
            }));
        }
        i = i + 1;
    }
}

/// Appends the decimal digits of `x` to `out`.
pub fn push_decimal(out: &mut Vec<u8>, x: u16)
    ensures
        final(out)@ =~= old(out)@ + spec_decimal(x as nat),
    decreases x,
{
    if x < 10 {
        out.push(48 + (x as u8));
    } else {
        push_decimal(out, x / 10);
        out.push(48 + ((x % 10) as u8));
    }
}

/// Every decimal digit byte is in the ASCII range.
pub proof fn lemma_decimal_is_ascii(x: nat)
    ensures
        forall|i: int| 0 <= i < spec_decimal(x).len() ==> spec_decimal(x)[i] < 0x80,
    decreases x,
{
    if x >= 10 {
        lemma_decimal_is_ascii(x / 10);
        let p = spec_decimal(x / 10);
        assert forall|i: int| 0 <= i < spec_decimal(x).len() implies spec_decimal(x)[i]
            < 0x80 by {
            if i < p.len() {
                assert(spec_decimal(x)[i] == p[i]);
            } else {
                assert(spec_decimal(x)[i] == (48 + x % 10) as u8);
            }
        }
    }
}

/// The fully-qualified name `<station>_<idcode>_<channel>` as text, for
/// the given channel-name window.
pub open spec fn spec_fq_name(stn: Seq<u8>, idcode: u16, chan: Seq<u8>) -> Seq<char> {
    spec_window_text(stn) + seq!['_'] + spec_chars_of(spec_decimal(idcode as nat)) + seq!['_']
        + spec_window_text(chan)
}

/// Builds the fully-qualified name `<station>_<idcode>_<channel>` from
/// a station window, an id code, and a channel window.
pub fn build_fq_name(stn: &[u8], idcode: u16, chan: &[u8], chan_start: usize) -> (r: String)
    requires
        stn@.len() == 16,
        chan_start + 16 <= chan@.len(),
    ensures
        r@ == spec_fq_name(stn@, idcode, chan@.subrange(chan_start as int, chan_start + 16)),
{
    let mut bytes: Vec<u8> = Vec::new();
    push_name_bytes(&mut bytes, stn, 0, 16);
    proof {
        assert(stn@.subrange(0, 16) =~= stn@);
    }
    bytes.push(95);
    push_decimal(&mut bytes, idcode);
    bytes.push(95);
    push_name_bytes(&mut bytes, chan, chan_start, 16);
    let ghost parts = spec_ascii_clean(spec_trim_right(stn@)) + seq![95u8] + spec_decimal(
        idcode as nat,
    ) + seq![95u8] + spec_ascii_clean(
        spec_trim_right(chan@.subrange(chan_start as int, chan_start + 16)),
    );
    proof {
        assert(bytes@ =~= parts);
        lemma_clean_is_ascii(spec_trim_right(stn@));
        lemma_clean_is_ascii(spec_trim_right(chan@.subrange(chan_start as int, chan_start + 16)));
        lemma_decimal_is_ascii(idcode as nat);
    }
    let r = ascii_string(bytes);
    proof {
        assert(spec_chars_of(parts) =~= spec_fq_name(
            stn@,
            idcode,
            chan@.subrange(chan_start as int, chan_start + 16),
        ));
    }
    r
}

/// The byte form of the column prefix `<station>_<idcode>`.
pub open spec fn spec_base_bytes(stn: Seq<u8>, idcode: u16) -> Seq<u8> {
    spec_ascii_clean(spec_trim_right(stn)) + seq![95u8] + spec_decimal(idcode as nat)
}

/// A full column name: the prefix `<station>_<idcode>` followed by a
/// suffix, decoded to text.
pub open spec fn spec_col_name(stn: Seq<u8>, idcode: u16, suffix: Seq<u8>) -> Seq<char> {
    spec_chars_of(spec_base_bytes(stn, idcode) + suffix)
}

/// Builds `<station>_<idcode>` followed by `suffix` as a string.
pub fn build_col_name(stn: &[u8], idcode: u16, suffix: &Vec<u8>) -> (r: String)
    requires
        stn@.len() == 16,
        forall|i: int| 0 <= i < suffix@.len() ==> suffix@[i] < 0x80,
    ensures
        r@ == spec_col_name(stn@, idcode, suffix@),
{
    let mut bytes: Vec<u8> = Vec::new();
    push_name_bytes(&mut bytes, stn, 0, 16);
    proof {
        assert(stn@.subrange(0, 16) =~= stn@);
    }
    bytes.push(95);
    push_decimal(&mut bytes, idcode);
    let mut i: usize = 0;
    let ghost base = bytes@;
    while i < suffix.len()
        invariant
            i <= suffix@.len(),
            bytes@ =~= base + suffix@.take(i as int),
        decreases suffix@.len() - i,
    {
        bytes.push(suffix[i]);
        proof {
            assert(base + suffix@.take(i as int) + seq![suffix@[i as int]] =~= base + suffix@.take(
                i + 1,
            ));
        }
        i = i + 1;
    }
    proof {
        assert(suffix@.take(suffix@.len() as int) =~= suffix@);
        assert(bytes@ =~= spec_base_bytes(stn@, idcode) + suffix@);
        lemma_clean_is_ascii(spec_trim_right(stn@));
        lemma_decimal_is_ascii(idcode as nat);
    }
    ascii_string(bytes)
}

/// Builds the text of one 16-byte name window.
pub fn build_window_text(s: &[u8], start: usize) -> (r: String)
    requires
        start + 16 <= s@.len(),
    ensures
        r@ == spec_window_text(s@.subrange(start as int, start + 16)),
{
    let mut bytes: Vec<u8> = Vec::new();
    push_name_bytes(&mut bytes, s, start, 16);
    proof {
        lemma_clean_is_ascii(spec_trim_right(s@.subrange(start as int, start + 16)));
    }
    ascii_string(bytes)
}

} // verus!
