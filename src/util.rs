use vstd::prelude::*;

verus! {

/// The text that `b` holds as UTF-8, or `None` where it is not valid UTF-8.
pub uninterp spec fn utf8_text(b: Seq<u8>) -> Option<Seq<char>>;

/// Relies on String::from_utf8: it keeps the bytes as text when they are valid
/// UTF-8 and fails otherwise, depending on the bytes alone. The error is kept
/// as its message.
#[verifier::external_body]
pub(crate) fn text_of(bytes: Vec<u8>) -> (r: Result<String, String>)
    ensures
        r matches Ok(t) ==> utf8_text(bytes@) == Some(t@),
        r is Err ==> utf8_text(bytes@) is None,
{
    String::from_utf8(bytes).map_err(|e| e.to_string())
}

pub open spec fn is_digit(c: u8) -> bool {
    48 <= c <= 57
}

/// The number that a string of decimal digits spells.
pub open spec fn digits_value(s: Seq<u8>) -> nat
    decreases s.len(),
{
    if s.len() == 0 {
        0
    } else {
        digits_value(s.drop_last()) * 10 + (s.last() - 48) as nat
    }
}

/// The digits of a header value, after an optional leading `+`.
pub open spec fn unsigned_digits(s: Seq<u8>) -> Seq<u8> {
    if s.len() > 0 && s[0] == 43 {
        s.drop_first()
    } else {
        s
    }
}

/// The length that a `Content-Length` header value announces: an unsigned
/// decimal number that fits in `usize`; 0 for an absent header or any other
/// value.
pub open spec fn content_length_of(v: Option<Seq<u8>>) -> nat {
    match v {
        None => 0,
        Some(s) => {
            let d = unsigned_digits(s);
            if d.len() > 0 && (forall|k: int| 0 <= k < d.len() ==> is_digit(#[trigger] d[k]))
                && digits_value(d) <= usize::MAX {
                digits_value(d)
            } else {
                0
            }
        },
    }
}

proof fn lemma_digits_grow(s: Seq<u8>, k: nat)
    requires
        k <= s.len(),
        forall|j: int| 0 <= j < s.len() ==> is_digit(#[trigger] s[j]),
    ensures
        digits_value(s.take(k as int)) <= digits_value(s),
    decreases s.len(),
{
    if k < s.len() {
        assert(s.drop_last().take(k as int) =~= s.take(k as int));
        lemma_digits_grow(s.drop_last(), k);
    } else {
        assert(s.take(k as int) =~= s);
    }
}

/// Reads the value of a `Content-Length` header, given as its bytes; 0 where
/// the header is absent or is not an unsigned decimal number within `usize`.
pub fn get_content_length(value: Option<&[u8]>) -> (r: usize)
    ensures
        r as nat == content_length_of(
            match value {
                Some(v) => Some(v@),
                None => None,
            },
        ),
{
    let v = match value {
        Some(v) => v,
        None => return 0,
    };
    let first: usize = if v.len() > 0 && v[0] == 43 {
        1
    } else {
        0
    };
    let ghost d = unsigned_digits(v@);
    assert(d =~= v@.subrange(first as int, v@.len() as int));
    if first == v.len() {
        return 0;
    }
    let mut k: usize = first;
    while k < v.len()
        invariant
            first <= k <= v@.len(),
            d =~= v@.subrange(first as int, v@.len() as int),
            d == unsigned_digits(v@),
            value == Some(v),
            forall|j: int| 0 <= j < k - first ==> is_digit(#[trigger] d[j]),
        decreases v@.len() - k,
    {
        let c = v[k];
        if c < 48 || c > 57 {
            assert(d[k - first] == c);
            assert(!is_digit(d[k - first]));
            return 0;
        }
        k = k + 1;
    }
    let mut acc: usize = 0;
    k = first;
    while k < v.len()
        invariant
            first <= k <= v@.len(),
            d =~= v@.subrange(first as int, v@.len() as int),
            d == unsigned_digits(v@),
            value == Some(v),
            d.len() > 0,
            forall|j: int| 0 <= j < d.len() ==> is_digit(#[trigger] d[j]),
            acc as nat == digits_value(d.take(k - first)),
        decreases v@.len() - k,
    {
        let c = v[k];
        assert(d[k - first] == c);
        let ghost t = d.take(k + 1 - first);
        assert(t.drop_last() =~= d.take(k - first));
        assert(t.last() == c);
        let next = match acc.checked_mul(10) {
            Some(m) => m.checked_add((c - 48) as usize),
            None => None,
        };
        match next {
            Some(n) => {
                acc = n;
            },
            None => {
                proof {
                    lemma_digits_grow(d, (k + 1 - first) as nat);
                }
                return 0;
            },
        }
        k = k + 1;
    }
    assert(d.take(k - first) =~= d);
    acc
}

} // verus!
