//! Parsing of `application/x-www-form-urlencoded` subscription submissions.
//!
//! A submission body is a sequence of `key=value` pairs separated by `&`.
//! Keys and values are percent-encoded: `%XY` stands for the byte with hex
//! value `XY`, and `+` stands for a space. A submission is accepted exactly
//! when the decoded pairs contain the key `name` once and the key `email`
//! once and every escape sequence and both decoded values are well formed;
//! anything else is a parse failure, answered with `400 Bad Request` and
//! never forwarded to the store.

use vstd::prelude::*;
use vstd::utf8::{valid_utf8, decode_utf8};

verus! {

pub const PERCENT: u8 = 0x25;
pub const AMP: u8 = 0x26;
pub const PLUS: u8 = 0x2b;
pub const EQUALS: u8 = 0x3d;
pub const SPACE: u8 = 0x20;

/// True of the ASCII bytes `0-9`, `A-F` and `a-f`.
pub open spec fn is_hex_digit(b: u8) -> bool {
    (0x30 <= b && b <= 0x39) || (0x41 <= b && b <= 0x46) || (0x61 <= b && b <= 0x66)
}

/// Numeric value of a hex digit byte.
pub open spec fn hex_value(b: u8) -> u8
    recommends
        is_hex_digit(b),
{
    if 0x30 <= b && b <= 0x39 {
        (b - 0x30) as u8
    } else if 0x41 <= b && b <= 0x46 {
        (b - 0x41 + 10) as u8
    } else if 0x61 <= b && b <= 0x66 {
        (b - 0x61 + 10) as u8
    } else {
        0
    }
}

/// Byte denoted by the escape sequence `%hl`.
pub open spec fn escape_byte(h: u8, l: u8) -> u8
    recommends
        is_hex_digit(h),
        is_hex_digit(l),
{
    (hex_value(h) * 16 + hex_value(l)) as u8
}

/// True when every `%` in `s` begins a complete escape sequence of two hex
/// digits.
pub open spec fn decode_ok(s: Seq<u8>) -> bool
    decreases s.len(),
{
    if s.len() == 0 {
        true
    } else if s[0] == PERCENT {
        s.len() >= 3 && is_hex_digit(s[1]) && is_hex_digit(s[2]) && decode_ok(s.skip(3))
    } else {
        decode_ok(s.skip(1))
    }
}

/// The percent-decoded form of `s`: each `%XY` becomes the byte `XY` and
/// each `+` becomes a space.
pub open spec fn decoded(s: Seq<u8>) -> Seq<u8>
    recommends
        decode_ok(s),
    decreases s.len(),
{
    if s.len() == 0 {
        Seq::empty()
    } else if s[0] == PERCENT {
        if s.len() >= 3 {
            seq![escape_byte(s[1], s[2])] + decoded(s.skip(3))
        } else {
            Seq::empty()
        }
    } else if s[0] == PLUS {
        seq![SPACE] + decoded(s.skip(1))
    } else {
        seq![s[0]] + decoded(s.skip(1))
    }
}

/// Percent-decodes `s`; `None` exactly when an escape sequence is
/// incomplete or holds a non-hex digit.
pub fn percent_decode(s: &Vec<u8>) -> (r: Option<Vec<u8>>)
    ensures
        r is Some <==> decode_ok(s@),
        r is Some ==> r->0@ == decoded(s@),
{
    let mut out: Vec<u8> = Vec::new();
    let mut i: usize = 0;
    proof {
        assert(s@.skip(0) =~= s@);
        assert(Seq::<u8>::empty() + decoded(s@) =~= decoded(s@));
    }
    while i < s.len()
        invariant
            i <= s.len(),
            decode_ok(s@) == decode_ok(s@.skip(i as int)),
            decode_ok(s@) ==> decoded(s@) == out@ + decoded(s@.skip(i as int)),
        decreases s.len() - i,
    {
        let b = s[i];
        proof {
            assert(s@.skip(i as int)[0] == b);
        }
        if b == PERCENT {
            if s.len() - i < 3 {
                proof {
                    assert(s@.skip(i as int).len() < 3);
                }
                return None;
            }
            let h = s[i + 1];
            let l = s[i + 2];
            proof {
                assert(s@.skip(i as int)[1] == h);
                assert(s@.skip(i as int)[2] == l);
                assert(s@.skip(i as int).skip(3) =~= s@.skip(i + 3));
            }
            let hv: u8 = if 0x30 <= h && h <= 0x39 {
                h - 0x30
            } else if 0x41 <= h && h <= 0x46 {
                h - 0x41 + 10
            } else if 0x61 <= h && h <= 0x66 {
                h - 0x61 + 10
            } else {
                return None;
            };
            let lv: u8 = if 0x30 <= l && l <= 0x39 {
                l - 0x30
            } else if 0x41 <= l && l <= 0x46 {
                l - 0x41 + 10
            } else if 0x61 <= l && l <= 0x66 {
                l - 0x61 + 10
            } else {
                return None;
            };
            assert(hv == hex_value(h));
            assert(lv == hex_value(l));
            out.push(hv * 16 + lv);
            i = i + 3;
        } else if b == PLUS {
            proof {
                assert(s@.skip(i as int).skip(1) =~= s@.skip(i + 1));
            }
            out.push(SPACE);
            i = i + 1;
        } else {
            proof {
                assert(s@.skip(i as int).skip(1) =~= s@.skip(i + 1));
            }
            out.push(b);
            i = i + 1;
        }
    }
    proof {
        assert(s@.skip(s.len() as int) =~= Seq::<u8>::empty());
        assert(out@ + Seq::<u8>::empty() =~= out@);
    }
    Some(out)
}

/// Segments of `s` between occurrences of `sep`; always at least one
/// segment, and an empty `s` yields one empty segment.
pub open spec fn split_on(s: Seq<u8>, sep: u8) -> Seq<Seq<u8>>
    decreases s.len(),
{
    if s.len() == 0 {
        seq![Seq::<u8>::empty()]
    } else if s[0] == sep {
        seq![Seq::<u8>::empty()] + split_on(s.skip(1), sep)
    } else {
        let rest = split_on(s.skip(1), sep);
        seq![seq![s[0]] + rest[0]] + rest.skip(1)
    }
}

pub proof fn lemma_split_on_nonempty(s: Seq<u8>, sep: u8)
    ensures
        split_on(s, sep).len() >= 1,
    decreases s.len(),
{
    if s.len() != 0 {
        lemma_split_on_nonempty(s.skip(1), sep);
    }
}

/// The first segment of `segs` with `pre` prepended to it.
pub open spec fn cons_first(pre: Seq<u8>, segs: Seq<Seq<u8>>) -> Seq<Seq<u8>>
    recommends
        segs.len() >= 1,
{
    seq![pre + segs[0]] + segs.skip(1)
}

pub open spec fn seg_views(v: Seq<Vec<u8>>) -> Seq<Seq<u8>> {
    v.map_values(|x: Vec<u8>| x@)
}

/// Splits `body` into the segments between `&` separators.
pub fn split_segments(body: &[u8]) -> (r: Vec<Vec<u8>>)
    ensures
        seg_views(r@) == split_on(body@, AMP),
{
    let ghost all: Seq<u8> = body@;
    let mut done: Vec<Vec<u8>> = Vec::new();
    let mut cur: Vec<u8> = Vec::new();
    let mut i: usize = 0;
    proof {
        assert(body@.skip(0) =~= body@);
        lemma_split_on_nonempty(body@, AMP);
        assert(seg_views(done@) + cons_first(cur@, split_on(body@.skip(0), AMP)) =~~= cons_first(
            cur@,
            split_on(body@, AMP),
        ));
        assert(cons_first(Seq::<u8>::empty(), split_on(body@, AMP)) =~~= split_on(body@, AMP));
    }
    while i < body.len()
        invariant
            i <= body@.len(),
            split_on(body@.skip(i as int), AMP).len() >= 1,
            seg_views(done@) + cons_first(cur@, split_on(body@.skip(i as int), AMP)) == split_on(
                body@,
                AMP,
            ),
        decreases body@.len() - i,
    {
        let b = body[i];
        let ghost tail = body@.skip(i as int);
        proof {
            assert(tail[0] == b);
            assert(tail.skip(1) =~= body@.skip(i + 1));
            lemma_split_on_nonempty(body@.skip(i + 1), AMP);
        }
        if b == AMP {
            proof {
                let r = split_on(body@.skip(i + 1), AMP);
                assert(split_on(tail, AMP) == seq![Seq::<u8>::empty()] + r);
                assert(cons_first(cur@, split_on(tail, AMP)) =~~= seq![cur@] + r);
                assert(seg_views(done@.push(cur)) =~= seg_views(done@) + seq![cur@]);
                assert(seg_views(done@.push(cur)) + cons_first(Seq::<u8>::empty(), r) =~~= (
                seg_views(done@) + cons_first(cur@, split_on(tail, AMP))));
            }
            done.push(cur);
            cur = Vec::new();
        } else {
            proof {
                let r = split_on(body@.skip(i + 1), AMP);
                assert(split_on(tail, AMP) == seq![seq![b] + r[0]] + r.skip(1));
                assert(cons_first(cur@.push(b), r) =~~= cons_first(cur@, split_on(tail, AMP)));
            }
            cur.push(b);
        }
        i = i + 1;
    }
    proof {
        assert(body@.skip(body@.len() as int) =~= Seq::<u8>::empty());
        assert(cons_first(cur@, split_on(Seq::<u8>::empty(), AMP)) =~~= seq![cur@]);
        assert(seg_views(done@.push(cur)) =~= seg_views(done@) + seq![cur@]);
    }
    done.push(cur);
    done
}

/// Length of the prefix of `s` before the first `sep`; `s.len()` when `sep`
/// does not occur.
pub open spec fn seg_len(s: Seq<u8>, sep: u8) -> int
    decreases s.len(),
{
    if s.len() == 0 {
        0
    } else if s[0] == sep {
        0
    } else {
        1 + seg_len(s.skip(1), sep)
    }
}

pub proof fn lemma_seg_len_bounds(s: Seq<u8>, sep: u8)
    ensures
        0 <= seg_len(s, sep) <= s.len(),
    decreases s.len(),
{
    if s.len() != 0 && s[0] != sep {
        lemma_seg_len_bounds(s.skip(1), sep);
    }
}

/// Index of the first `=` in `p`, or its length when there is none.
pub fn find_equals(p: &Vec<u8>) -> (r: usize)
    ensures
        r == seg_len(p@, EQUALS),
{
    let mut j: usize = 0;
    proof {
        assert(p@.skip(0) =~= p@);
    }
    while j < p.len()
        invariant
            j <= p@.len(),
            seg_len(p@, EQUALS) == j + seg_len(p@.skip(j as int), EQUALS),
        decreases p@.len() - j,
    {
        let ghost tail = p@.skip(j as int);
        proof {
            assert(tail[0] == p@[j as int]);
            assert(tail.skip(1) =~= p@.skip(j + 1));
        }
        if p[j] == EQUALS {
            proof {
                lemma_seg_len_bounds(p@, EQUALS);
            }
            return j;
        }
        j = j + 1;
    }
    proof {
        assert(p@.skip(p@.len() as int) =~= Seq::<u8>::empty());
    }
    j
}

/// Key of a `key=value` pair: the part before the first `=`.
pub open spec fn key_of(p: Seq<u8>) -> Seq<u8> {
    p.take(seg_len(p, EQUALS))
}

/// Raw (still encoded) value of a `key=value` pair: the part after the
/// first `=`, or empty when there is no `=`.
pub open spec fn raw_value_of(p: Seq<u8>) -> Seq<u8> {
    if seg_len(p, EQUALS) == p.len() {
        Seq::empty()
    } else {
        p.skip(seg_len(p, EQUALS) + 1)
    }
}

/// Copy of `p[from..to]`.
pub fn subvec(p: &Vec<u8>, from: usize, to: usize) -> (r: Vec<u8>)
    requires
        from <= to <= p@.len(),
    ensures
        r@ == p@.subrange(from as int, to as int),
{
    let mut r: Vec<u8> = Vec::new();
    let mut k: usize = from;
    while k < to
        invariant
            from <= k <= to <= p@.len(),
            r@ == p@.subrange(from as int, k as int),
        decreases to - k,
    {
        r.push(p[k]);
        proof {
            assert(r@ =~= p@.subrange(from as int, k + 1));
        }
        k = k + 1;
    }
    r
}

/// The decoded key bytes of the required `name` field.
pub open spec fn name_key() -> Seq<u8> {
    seq![0x6eu8, 0x61u8, 0x6du8, 0x65u8]
}

/// The decoded key bytes of the required `email` field.
pub open spec fn email_key() -> Seq<u8> {
    seq![0x65u8, 0x6du8, 0x61u8, 0x69u8, 0x6cu8]
}

/// Why a submission body was rejected; every variant is answered with
/// `400 Bad Request` and no store call.
#[derive(Clone, Copy, Debug, PartialEq, Eq, Structural)]
pub enum ParseError {
    /// The `email` key is absent.
    MissingEmail,
    /// The `name` key is absent.
    MissingName,
    /// Both required keys are absent.
    MissingBoth,
    /// An escape sequence is incomplete, or a decoded field is not UTF-8.
    BadEncoding,
    /// A required key occurs more than once.
    DuplicateField,
}

/// One pass over the pairs of a submission, left to right: collects the
/// decoded `name` and `email` values, rejects bad escapes and duplicate
/// required keys, and ignores empty segments and other keys.
pub open spec fn scan_pairs(
    ps: Seq<Seq<u8>>,
    name: Option<Seq<u8>>,
    email: Option<Seq<u8>>,
) -> Result<(Option<Seq<u8>>, Option<Seq<u8>>), ParseError>
    decreases ps.len(),
{
    if ps.len() == 0 {
        Ok((name, email))
    } else {
        let p = ps[0];
        if p.len() == 0 {
            scan_pairs(ps.skip(1), name, email)
        } else if !decode_ok(key_of(p)) || !decode_ok(raw_value_of(p)) {
            Err(ParseError::BadEncoding)
        } else {
            let k = decoded(key_of(p));
            let v = decoded(raw_value_of(p));
            if k == name_key() {
                if name is Some {
                    Err(ParseError::DuplicateField)
                } else {
                    scan_pairs(ps.skip(1), Some(v), email)
                }
            } else if k == email_key() {
                if email is Some {
                    Err(ParseError::DuplicateField)
                } else {
                    scan_pairs(ps.skip(1), name, Some(v))
                }
            } else {
                scan_pairs(ps.skip(1), name, email)
            }
        }
    }
}

/// What a submission body means: the decoded `name` and `email` values,
/// or the error it is rejected with.
pub open spec fn parse_form_spec(body: Seq<u8>) -> Result<(Seq<char>, Seq<char>), ParseError> {
    match scan_pairs(split_on(body, AMP), None, None) {
        Err(e) => Err(e),
        Ok((n, e)) => match (n, e) {
            (Option::None, Option::None) => Err(ParseError::MissingBoth),
            (Option::None, Option::Some(_)) => Err(ParseError::MissingName),
            (Option::Some(_), Option::None) => Err(ParseError::MissingEmail),
            (Option::Some(nb), Option::Some(eb)) => if valid_utf8(nb) && valid_utf8(eb) {
                Ok((decode_utf8(nb), decode_utf8(eb)))
            } else {
                Err(ParseError::BadEncoding)
            },
        },
    }
}

/// A parsed subscription submission: the decoded `email` and `name`
/// values, exactly as submitted.
pub struct FormData {
    pub email: String,
    pub name: String,
}

/// Relies on `String::from_utf8`: it returns `Ok` exactly on valid UTF-8
/// input, and then the string of the decoded characters.
#[verifier::external_body]
fn bytes_to_string(v: Vec<u8>) -> (r: Option<String>)
    ensures
        r is Some <==> valid_utf8(v@),
        r is Some ==> r->0@ == decode_utf8(v@),
{
    match String::from_utf8(v) {
        Ok(s) => Some(s),
        Err(_) => None,
    }
}

/// True when `a` holds exactly the decoded key `name`.
pub fn is_name_key(a: &Vec<u8>) -> (r: bool)
    ensures
        r == (a@ == name_key()),
{
    if a.len() == 4 && a[0] == 0x6eu8 && a[1] == 0x61u8 && a[2] == 0x6du8
        && a[3] == 0x65u8 {
        proof {
            assert(a@ =~= name_key());
        }
        true
    } else {
        proof {
            assert(a@ != name_key());
        }
        false
    }
}

/// True when `a` holds exactly the decoded key `email`.
pub fn is_email_key(a: &Vec<u8>) -> (r: bool)
    ensures
        r == (a@ == email_key()),
{
    if a.len() == 5 && a[0] == 0x65u8 && a[1] == 0x6du8 && a[2] == 0x61u8
        && a[3] == 0x69u8 && a[4] == 0x6cu8 {
        proof {
            assert(a@ =~= email_key());
        }
        true
    } else {
        proof {
            assert(a@ != email_key());
        }
        false
    }
}

/// Parses a submission body; the result is exactly what
/// [`parse_form_spec`] says of it.
pub fn parse_form(body: &[u8]) -> (r: Result<FormData, ParseError>)
    ensures
        r is Ok <==> parse_form_spec(body@) is Ok,
        r is Ok ==> r->Ok_0.name@ == parse_form_spec(body@)->Ok_0.0,
        r is Ok ==> r->Ok_0.email@ == parse_form_spec(body@)->Ok_0.1,
        r is Err ==> r->Err_0 == parse_form_spec(body@)->Err_0,
{
    let segs = split_segments(body);
    let ghost all = seg_views(segs@);
    let mut name_val: Option<Vec<u8>> = None;
    let mut email_val: Option<Vec<u8>> = None;
    let mut j: usize = 0;
    proof {
        assert(all.skip(0) =~= all);
    }
    while j < segs.len()
        invariant
            j <= segs@.len(),
            all == seg_views(segs@),
            all == split_on(body@, AMP),
            scan_pairs(all, None, None) == scan_pairs(
                all.skip(j as int),
                opt_bytes(name_val),
                opt_bytes(email_val),
            ),
        decreases segs@.len() - j,
    {
        let p = &segs[j];
        let ghost ptail = all.skip(j as int);
        proof {
            assert(all.len() == segs@.len());
            assert(ptail.len() == all.len() - j);
            assert(ptail[0] == p@);
            assert(ptail.skip(1) =~= all.skip(j + 1));
        }
        if p.len() > 0 {
            let e = find_equals(p);
            proof {
                lemma_seg_len_bounds(p@, EQUALS);
                assert(p@.subrange(0, e as int) =~= key_of(p@));
            }
            let key = subvec(p, 0, e);
            let raw = if e == p.len() {
                proof {
                    assert(raw_value_of(p@) =~= Seq::<u8>::empty());
                }
                Vec::new()
            } else {
                proof {
                    assert(p@.subrange(e + 1, p@.len() as int) =~= raw_value_of(p@));
                }
                subvec(p, e + 1, p.len())
            };
            let dk = match percent_decode(&key) {
                Some(d) => d,
                None => {
                    return Err(ParseError::BadEncoding);
                },
            };
            let dv = match percent_decode(&raw) {
                Some(d) => d,
                None => {
                    return Err(ParseError::BadEncoding);
                },
            };
            if is_name_key(&dk) {
                if name_val.is_some() {
                    return Err(ParseError::DuplicateField);
                }
                name_val = Some(dv);
            } else if is_email_key(&dk) {
                if email_val.is_some() {
                    return Err(ParseError::DuplicateField);
                }
                email_val = Some(dv);
            }
        }
        j = j + 1;
    }
    proof {
        assert(all.skip(all.len() as int) =~= Seq::<Seq<u8>>::empty());
    }
    match (name_val, email_val) {
        (Option::None, Option::None) => Err(ParseError::MissingBoth),
        (Option::None, Option::Some(_)) => Err(ParseError::MissingName),
        (Option::Some(_), Option::None) => Err(ParseError::MissingEmail),
        (Option::Some(nb), Option::Some(eb)) => {
            let name_s = match bytes_to_string(nb) {
                Some(s) => s,
                None => {
                    return Err(ParseError::BadEncoding);
                },
            };
            let email_s = match bytes_to_string(eb) {
                Some(s) => s,
                None => {
                    return Err(ParseError::BadEncoding);
                },
            };
            Ok(FormData { email: email_s, name: name_s })
        },
    }
}

/// View of an optional byte vector as an optional byte sequence.
pub open spec fn opt_bytes(o: Option<Vec<u8>>) -> Option<Seq<u8>> {
    match o {
        Option::None => Option::None,
        Option::Some(v) => Option::Some(v@),
    }
}

} // verus!
