//! Helpers for the fields of an uplink envelope: the base64-encoded raw
//! payload and the data-rate string (`SF7BW125` and the like, spreading
//! factor then bandwidth).

use vstd::prelude::*;

verus! {

/// What the base64 decoder returns for a byte sequence: the decoded bytes
/// where the input is valid base64, nothing otherwise. The result depends
/// on the input alone.
pub uninterp spec fn base64_decoding(s: Seq<u8>) -> Option<Seq<u8>>;

/// Relies on data_encoding::Encoding::decode with the BASE64 constant:
/// decoding either returns the bytes the input encodes or rejects the
/// input, and depends on the input alone.
#[verifier::external_body]
fn base64_decode(input: &[u8]) -> (r: Option<Vec<u8>>)
    ensures
        match r {
            Some(v) => base64_decoding(input@) == Some(v@),
            None => base64_decoding(input@) is None,
        },
{
    data_encoding::BASE64.decode(input).ok()
}

/// Decodes the base64-encoded raw payload of an envelope. A payload that
/// is not valid base64 is rejected, and the message it arrived in is then
/// dropped by the caller.
pub fn decode_payload(raw: &[u8]) -> (r: Option<Vec<u8>>)
    ensures
        match r {
            Some(v) => base64_decoding(raw@) == Some(v@),
            None => base64_decoding(raw@) is None,
        },
{
    base64_decode(raw)
}

/// The ASCII bytes the data-rate grammar is written in.
pub const BYTE_S: u8 = 83;

pub const BYTE_F: u8 = 70;

pub const BYTE_B: u8 = 66;

pub const BYTE_W: u8 = 87;

/// A decimal digit byte.
pub open spec fn is_digit(b: u8) -> bool {
    48 <= b <= 57
}

/// Every byte of the sequence is a decimal digit.
pub open spec fn all_digits(s: Seq<u8>) -> bool {
    forall|i: int| 0 <= i < s.len() ==> is_digit(#[trigger] s[i])
}

/// The number a sequence of decimal digit bytes denotes.
pub open spec fn digits_value(s: Seq<u8>) -> nat
    recommends
        all_digits(s),
    decreases s.len(),
{
    if s.len() == 0 {
        0
    } else {
        digits_value(s.drop_last()) * 10 + (s.last() - 48) as nat
    }
}

/// Holds when position `k` splits a data-rate string into `SF`, a
/// non-empty run of digits, `BW` at `k`, and a non-empty run of digits to
/// the end.
pub open spec fn data_rate_split_at(s: Seq<u8>, k: int) -> bool {
    &&& 2 < k
    &&& k + 2 < s.len()
    &&& s[0] == BYTE_S
    &&& s[1] == BYTE_F
    &&& s[k] == BYTE_B
    &&& s[k + 1] == BYTE_W
    &&& all_digits(s.subrange(2, k))
    &&& all_digits(s.subrange(k + 2, s.len() as int))
}

/// A digit run's value as a byte, where it fits.
pub open spec fn fit_u8(v: nat) -> Option<u8> {
    if v <= 255 {
        Some(v as u8)
    } else {
        None
    }
}

/// What a data-rate string denotes: nothing when it does not have the
/// form `SF<digits>BW<digits>`; otherwise the spreading factor and the
/// bandwidth, each present where its digits fit in a byte.
pub open spec fn data_rate_parse(s: Seq<u8>) -> Option<(Option<u8>, Option<u8>)> {
    if exists|k: int| data_rate_split_at(s, k) {
        let k = choose|k: int| data_rate_split_at(s, k);
        Some(
            (
                fit_u8(digits_value(s.subrange(2, k))),
                fit_u8(digits_value(s.subrange(k + 2, s.len() as int))),
            ),
        )
    } else {
        None
    }
}

/// A data-rate string splits at one position only: `B` is not a digit, so
/// the first one after the digit run is it.
proof fn lemma_split_position(s: Seq<u8>, i: int, k: int)
    requires
        data_rate_split_at(s, k),
        2 <= i <= s.len(),
        all_digits(s.subrange(2, i)),
        i < s.len() ==> !is_digit(s[i]),
    ensures
        k == i,
{
    if k < i {
        assert(s.subrange(2, i)[k - 2] == s[k]);
        assert(is_digit(s[k]));
    }
    if k > i {
        assert(i < s.len());
        assert(s.subrange(2, k)[i - 2] == s[i]);
        assert(is_digit(s[i]));
    }
}

/// Parses a data-rate string's bytes. Returns nothing when the string is
/// not of the form `SF<digits>BW<digits>`; otherwise each of the two
/// numbers, where it fits in a byte.
pub fn parse_data_rate(s: &[u8]) -> (r: Option<(Option<u8>, Option<u8>)>)
    ensures
        r == data_rate_parse(s@),
{
    let n = s.len();
    if n < 2 || s[0] != BYTE_S || s[1] != BYTE_F {
        proof {
            assert forall|k: int| !data_rate_split_at(s@, k) by {}
        }
        return None;
    }
    let mut i: usize = 2;
    let mut sf_val: u32 = 0;
    let mut sf_big: bool = false;
    while i < n && 48 <= s[i] && s[i] <= 57
        invariant
            2 <= i <= n,
            n == s@.len(),
            all_digits(s@.subrange(2, i as int)),
            !sf_big ==> sf_val == digits_value(s@.subrange(2, i as int)) && sf_val <= 255,
            sf_big ==> digits_value(s@.subrange(2, i as int)) > 255,
        decreases n - i,
    {
        let d = (s[i] - 48) as u32;
        proof {
            let pre = s@.subrange(2, i as int);
            let post = s@.subrange(2, i as int + 1);
            assert(post.drop_last() =~= pre);
            assert(post.last() == s@[i as int]);
            assert(digits_value(post) == digits_value(pre) * 10 + d);
        }
        if !sf_big {
            sf_val = sf_val * 10 + d;
            if sf_val > 255 {
                sf_big = true;
            }
        }
        i = i + 1;
    }
    if i == 2 || n - i < 3 || s[i] != BYTE_B || s[i + 1] != BYTE_W {
        proof {
            assert forall|k: int| !data_rate_split_at(s@, k) by {
                if data_rate_split_at(s@, k) {
                    lemma_split_position(s@, i as int, k);
                }
            }
        }
        return None;
    }
    let mut j: usize = i + 2;
    let mut bw_val: u32 = 0;
    let mut bw_big: bool = false;
    while j < n && 48 <= s[j] && s[j] <= 57
        invariant
            i + 2 <= j <= n,
            n == s@.len(),
            all_digits(s@.subrange(i + 2, j as int)),
            !bw_big ==> bw_val == digits_value(s@.subrange(i + 2, j as int)) && bw_val <= 255,
            bw_big ==> digits_value(s@.subrange(i + 2, j as int)) > 255,
        decreases n - j,
    {
        let d = (s[j] - 48) as u32;
        proof {
            let pre = s@.subrange(i + 2, j as int);
            let post = s@.subrange(i + 2, j as int + 1);
            assert(post.drop_last() =~= pre);
            assert(post.last() == s@[j as int]);
            assert(digits_value(post) == digits_value(pre) * 10 + d);
        }
        if !bw_big {
            bw_val = bw_val * 10 + d;
            if bw_val > 255 {
                bw_big = true;
            }
        }
        j = j + 1;
    }
    if j < n {
        proof {
            assert forall|k: int| !data_rate_split_at(s@, k) by {
                if data_rate_split_at(s@, k) {
                    lemma_split_position(s@, i as int, k);
                    assert(s@.subrange(i + 2, n as int)[j - i - 2] == s@[j as int]);
                    assert(is_digit(s@[j as int]));
                }
            }
        }
        return None;
    }
    proof {
        assert(data_rate_split_at(s@, i as int));
        let kk = choose|k: int| data_rate_split_at(s@, k);
        lemma_split_position(s@, i as int, kk);
    }
    let sf = if sf_big {
        None
    } else {
        Some(sf_val as u8)
    };
    let bw = if bw_big {
        None
    } else {
        Some(bw_val as u8)
    };
    Some((sf, bw))
}

} // verus!
