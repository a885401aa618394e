//! The `application/x-www-form-urlencoded` grammar and the subscription form.
//!
//! A request body is a sequence of bytes. It splits on `&` into segments,
//! empty segments are skipped, each segment splits at its first `=` into a
//! key and a value, and key and value are percent-decoded separately (`+`
//! stands for a space, `%xy` with two hex digits for one byte, and anything
//! else for itself). The form is well-formed when exactly one `name` pair
//! and exactly one `email` pair are present; nothing further is asked of
//! either value.

use vstd::prelude::*;

verus! {

/// `&`, the byte that separates pairs.
pub const AMPERSAND: u8 = 38;

/// `=`, the byte that separates a key from its value.
pub const EQUALS_SIGN: u8 = 61;

/// `+`, which decodes to a space.
pub const PLUS_SIGN: u8 = 43;

/// `%`, which opens a two-digit hex escape.
pub const PERCENT_SIGN: u8 = 37;

/// The space byte that `+` decodes to.
pub const SPACE: u8 = 32;

/// A hex digit as percent escapes accept it: `0-9`, `A-F` or `a-f`.
pub open spec fn is_hex_digit(b: u8) -> bool {
    (48 <= b && b <= 57) || (65 <= b && b <= 70) || (97 <= b && b <= 102)
}

/// The numeric value of a hex digit.
pub open spec fn hex_value(b: u8) -> u8 {
    if 48 <= b && b <= 57 {
        (b - 48) as u8
    } else if 65 <= b && b <= 70 {
        (b - 55) as u8
    } else {
        (b - 87) as u8
    }
}

/// Percent-decoding of one key or value: `+` becomes a space, `%` followed
/// by two hex digits becomes the byte they spell, and every other byte --
/// including a `%` whose escape is malformed -- stands for itself.
pub open spec fn percent_decode(s: Seq<u8>) -> Seq<u8>
    decreases s.len(),
{
    if s.len() == 0 {
        Seq::empty()
    } else if s[0] == PLUS_SIGN {
        seq![SPACE] + percent_decode(s.skip(1))
    } else if s[0] == PERCENT_SIGN && s.len() >= 3 && is_hex_digit(s[1]) && is_hex_digit(s[2]) {
        seq![((hex_value(s[1]) as int) * 16 + (hex_value(s[2]) as int)) as u8] + percent_decode(
            s.skip(3),
        )
    } else {
        seq![s[0]] + percent_decode(s.skip(1))
    }
}

/// The segments of `s` between occurrences of `sep`. A body with no
/// separator is one segment; each separator opens a new, possibly empty,
/// segment, so the result is never empty.
pub open spec fn split_on(s: Seq<u8>, sep: u8) -> Seq<Seq<u8>>
    decreases s.len(),
{
    if s.len() == 0 {
        seq![Seq::<u8>::empty()]
    } else if s[0] == sep {
        seq![Seq::<u8>::empty()] + split_on(s.skip(1), sep)
    } else {
        let rest = split_on(s.skip(1), sep);
        seq![seq![s[0]] + rest[0]] + rest.skip(1)
    }
}

/// A segment split at its first `=`: everything before it is the key,
/// everything after it the value. Without a `=` the whole segment is the
/// key and the value is empty.
pub open spec fn split_pair(seg: Seq<u8>) -> (Seq<u8>, Seq<u8>)
    decreases seg.len(),
{
    if seg.len() == 0 {
        (Seq::empty(), Seq::empty())
    } else if seg[0] == EQUALS_SIGN {
        (Seq::empty(), seg.skip(1))
    } else {
        let rest = split_pair(seg.skip(1));
        (seq![seg[0]] + rest.0, rest.1)
    }
}

/// A segment's key and value, percent-decoded.
pub open spec fn decoded_pair(seg: Seq<u8>) -> (Seq<u8>, Seq<u8>) {
    (percent_decode(split_pair(seg).0), percent_decode(split_pair(seg).1))
}

/// The decoded pairs of a list of segments, empty segments skipped.
pub open spec fn pairs_from(segs: Seq<Seq<u8>>) -> Seq<(Seq<u8>, Seq<u8>)>
    decreases segs.len(),
{
    if segs.len() == 0 {
        Seq::empty()
    } else {
        pairs_from(segs.drop_last()) + if segs.last().len() > 0 {
            seq![decoded_pair(segs.last())]
        } else {
            Seq::empty()
        }
    }
}

/// The decoded key/value pairs of a whole request body.
pub open spec fn form_pairs(body: Seq<u8>) -> Seq<(Seq<u8>, Seq<u8>)> {
    pairs_from(split_on(body, AMPERSAND))
}

/// The values carried by pairs whose key is `key`, in body order.
pub open spec fn key_values(pairs: Seq<(Seq<u8>, Seq<u8>)>, key: Seq<u8>) -> Seq<Seq<u8>>
    decreases pairs.len(),
{
    if pairs.len() == 0 {
        Seq::empty()
    } else {
        key_values(pairs.drop_last(), key) + if pairs.last().0 == key {
            seq![pairs.last().1]
        } else {
            Seq::empty()
        }
    }
}

/// The bytes of the key `name`.
pub open spec fn name_key() -> Seq<u8> {
    seq![110u8, 97u8, 109u8, 101u8]
}

/// The bytes of the key `email`.
pub open spec fn email_key() -> Seq<u8> {
    seq![101u8, 109u8, 97u8, 105u8, 108u8]
}

/// Why a body failed to decode into a form.
#[derive(Clone, Copy, Debug, PartialEq, Eq, Structural)]
pub enum FormError {
    /// No pair with key `name`.
    MissingName,
    /// No pair with key `email`.
    MissingEmail,
    /// More than one pair with key `name`.
    DuplicateName,
    /// More than one pair with key `email`.
    DuplicateEmail,
}

/// What a request body decodes to: the `name` and `email` values when each
/// key occurs exactly once, and otherwise the first reason it is refused,
/// duplicates reported before absences and `name` before `email`.
pub open spec fn form_outcome(body: Seq<u8>) -> Result<(Seq<u8>, Seq<u8>), FormError> {
    let pairs = form_pairs(body);
    let names = key_values(pairs, name_key());
    let emails = key_values(pairs, email_key());
    if names.len() > 1 {
        Err(FormError::DuplicateName)
    } else if emails.len() > 1 {
        Err(FormError::DuplicateEmail)
    } else if names.len() == 0 {
        Err(FormError::MissingName)
    } else if emails.len() == 0 {
        Err(FormError::MissingEmail)
    } else {
        Ok((names[0], emails[0]))
    }
}

/// What `String::from_utf8_lossy` turns a byte sequence into. The result
/// depends on the bytes alone; on valid UTF-8 it is their decoding, stated
/// below on the function that carries the call.
pub uninterp spec fn utf8_lossy(bytes: Seq<u8>) -> Seq<char>;

/// Relies on `String::from_utf8_lossy`: the result is a function of the
/// bytes alone, and on valid UTF-8 it is exactly their decoding (invalid
/// sequences are replaced, which this contract leaves unstated).
#[verifier::external_body]
fn bytes_to_string_lossy(v: Vec<u8>) -> (r: String)
    ensures
        r@ == utf8_lossy(v@),
        vstd::utf8::valid_utf8(v@) ==> r@ == vstd::utf8::decode_utf8(v@),
{
    String::from_utf8_lossy(&v).into_owned()
}

/// One subscription form: the two decoded fields of a well-formed body.
#[derive(Debug)]
pub struct FormData {
    pub name: String,
    pub email: String,
}

/// A run without the separator is a single segment.
proof fn lemma_split_on_no_sep(t: Seq<u8>, sep: u8)
    requires
        forall|j: int| 0 <= j < t.len() ==> t[j] != sep,
    ensures
        split_on(t, sep) == seq![t],
    decreases t.len(),
{
    if t.len() == 0 {
        assert(t =~= Seq::<u8>::empty());
    } else {
        assert(forall|j: int| 0 <= j < t.skip(1).len() ==> t.skip(1)[j] != sep);
        lemma_split_on_no_sep(t.skip(1), sep);
        let rest = split_on(t.skip(1), sep);
        assert(seq![t[0]] + rest[0] =~= t);
        assert(rest.skip(1) =~= Seq::<Seq<u8>>::empty());
        assert(split_on(t, sep) =~= seq![t]);
    }
}

/// Splitting at the first separator: the bytes before it are the first
/// segment, and the rest splits on its own.
proof fn lemma_split_on_at_sep(t: Seq<u8>, sep: u8, k: int)
    requires
        0 <= k < t.len(),
        t[k] == sep,
        forall|j: int| 0 <= j < k ==> t[j] != sep,
    ensures
        split_on(t, sep) == seq![t.take(k)] + split_on(t.skip(k + 1), sep),
    decreases k,
{
    if k == 0 {
        assert(t.take(0) =~= Seq::<u8>::empty());
    } else {
        assert(forall|j: int| 0 <= j < k - 1 ==> t.skip(1)[j] != sep);
        lemma_split_on_at_sep(t.skip(1), sep, k - 1);
        let rest = split_on(t.skip(1), sep);
        assert(rest[0] == t.skip(1).take(k - 1));
        assert(seq![t[0]] + rest[0] =~= t.take(k));
        assert(rest.skip(1) =~= split_on(t.skip(1).skip(k), sep));
        assert(t.skip(1).skip(k) =~= t.skip(k + 1));
        assert(split_on(t, sep) =~= seq![t.take(k)] + split_on(t.skip(k + 1), sep));
    }
}

/// A segment without `=` is all key, with an empty value.
proof fn lemma_split_pair_no_eq(seg: Seq<u8>)
    requires
        forall|j: int| 0 <= j < seg.len() ==> seg[j] != EQUALS_SIGN,
    ensures
        split_pair(seg) == (seg, Seq::<u8>::empty()),
    decreases seg.len(),
{
    if seg.len() == 0 {
        assert(seg =~= Seq::<u8>::empty());
    } else {
        assert(forall|j: int| 0 <= j < seg.skip(1).len() ==> seg.skip(1)[j] != EQUALS_SIGN);
        lemma_split_pair_no_eq(seg.skip(1));
        assert(seq![seg[0]] + seg.skip(1) =~= seg);
    }
}

/// A segment splits at its first `=`.
proof fn lemma_split_pair_at(seg: Seq<u8>, k: int)
    requires
        0 <= k < seg.len(),
        seg[k] == EQUALS_SIGN,
        forall|j: int| 0 <= j < k ==> seg[j] != EQUALS_SIGN,
    ensures
        split_pair(seg) == (seg.take(k), seg.skip(k + 1)),
    decreases k,
{
    if k == 0 {
        assert(seg.take(0) =~= Seq::<u8>::empty());
    } else {
        assert(forall|j: int| 0 <= j < k - 1 ==> seg.skip(1)[j] != EQUALS_SIGN);
        lemma_split_pair_at(seg.skip(1), k - 1);
        assert(seq![seg[0]] + seg.skip(1).take(k - 1) =~= seg.take(k));
        assert(seg.skip(1).skip(k) =~= seg.skip(k + 1));
    }
}

/// Whether `b` is a hex digit.
fn is_hex_digit_exec(b: u8) -> (r: bool)
    ensures
        r == is_hex_digit(b),
{
    (48 <= b && b <= 57) || (65 <= b && b <= 70) || (97 <= b && b <= 102)
}

/// The value of the hex digit `b`.
fn hex_value_exec(b: u8) -> (r: u8)
    requires
        is_hex_digit(b),
    ensures
        r == hex_value(b),
{
    if b <= 57 {
        b - 48
    } else if b <= 70 {
        b - 55
    } else {
        b - 87
    }
}

/// The first position in `[lo, hi)` holding `target`, or `hi`.
fn find_in_range(s: &[u8], lo: usize, hi: usize, target: u8) -> (r: usize)
    requires
        lo <= hi,
        hi <= s@.len(),
    ensures
        lo <= r <= hi,
        forall|j: int| lo <= j < r ==> s@[j] != target,
        r < hi ==> s@[r as int] == target,
{
    let mut i: usize = lo;
    while i < hi
        invariant
            lo <= i <= hi,
            hi <= s@.len(),
            forall|j: int| lo <= j < i ==> s@[j] != target,
        decreases hi - i,
    {
        if s[i] == target {
            return i;
        }
        i += 1;
    }
    i
}

/// Percent-decode one key or value.
fn percent_decode_exec(s: &[u8]) -> (out: Vec<u8>)
    ensures
        out@ == percent_decode(s@),
{
    let mut out: Vec<u8> = Vec::new();
    let mut i: usize = 0;
    proof {
        assert(s@.skip(0) =~= s@);
        assert(out@ + percent_decode(s@) =~= percent_decode(s@));
    }
    while i < s.len()
        invariant
            i <= s@.len(),
            percent_decode(s@) == out@ + percent_decode(s@.skip(i as int)),
        decreases s@.len() - i,
    {
        let b: u8 = s[i];
        if b == PLUS_SIGN {
            out.push(SPACE);
            proof {
                assert(s@.skip(i as int).skip(1) =~= s@.skip(i as int + 1));
                assert(percent_decode(s@) =~= out@ + percent_decode(s@.skip(i as int + 1)));
            }
            i += 1;
        } else if b == PERCENT_SIGN && s.len() - i >= 3 && is_hex_digit_exec(s[i + 1])
            && is_hex_digit_exec(s[i + 2]) {
            let decoded: u8 = hex_value_exec(s[i + 1]) * 16 + hex_value_exec(s[i + 2]);
            out.push(decoded);
            proof {
                assert(s@.skip(i as int).skip(3) =~= s@.skip(i as int + 3));
                assert(percent_decode(s@) =~= out@ + percent_decode(s@.skip(i as int + 3)));
            }
            i += 3;
        } else {
            out.push(b);
            proof {
                assert(s@.skip(i as int).skip(1) =~= s@.skip(i as int + 1));
                assert(percent_decode(s@) =~= out@ + percent_decode(s@.skip(i as int + 1)));
            }
            i += 1;
        }
    }
    proof {
        assert(s@.skip(i as int) =~= Seq::<u8>::empty());
        assert(out@ =~= percent_decode(s@));
    }
    out
}

/// Whether `k` spells `name`.
fn is_name_key(k: &Vec<u8>) -> (r: bool)
    ensures
        r == (k@ == name_key()),
{
    let r = k.len() == 4 && k[0] == 110 && k[1] == 97 && k[2] == 109 && k[3] == 101;
    proof {
        if r {
            assert(k@ =~= name_key());
        } else {
            assert(k@ != name_key());
        }
    }
    r
}

/// Whether `k` spells `email`.
fn is_email_key(k: &Vec<u8>) -> (r: bool)
    ensures
        r == (k@ == email_key()),
{
    let r = k.len() == 5 && k[0] == 101 && k[1] == 109 && k[2] == 97 && k[3] == 105 && k[4]
        == 108;
    proof {
        if r {
            assert(k@ =~= email_key());
        } else {
            assert(k@ != email_key());
        }
    }
    r
}

/// Decode and validate one request body: [`form_outcome`], executed. On a
/// well-formed body the two values come back as strings; otherwise the
/// exact reason of [`form_outcome`] comes back as the error.
pub fn parse_form(body: &[u8]) -> (r: Result<FormData, FormError>)
    ensures
        r matches Ok(fd) ==> {
            &&& form_outcome(body@) matches Ok(fields)
            &&& fd.name@ == utf8_lossy(fields.0)
            &&& fd.email@ == utf8_lossy(fields.1)
            &&& (vstd::utf8::valid_utf8(fields.0) ==> fd.name@ == vstd::utf8::decode_utf8(
                fields.0,
            ))
            &&& (vstd::utf8::valid_utf8(fields.1) ==> fd.email@ == vstd::utf8::decode_utf8(
                fields.1,
            ))
        },
        r matches Err(e) ==> form_outcome(body@) == Err::<(Seq<u8>, Seq<u8>), FormError>(e),
{
    let mut name_first: Option<Vec<u8>> = None;
    let mut name_dup: bool = false;
    let mut email_first: Option<Vec<u8>> = None;
    let mut email_dup: bool = false;
    let mut pos: usize = 0;
    let mut done: bool = false;
    let ghost mut segs_done: Seq<Seq<u8>> = Seq::empty();
    proof {
        assert(body@.skip(0) =~= body@);
        assert(segs_done + split_on(body@, AMPERSAND) =~= split_on(body@, AMPERSAND));
    }
    while !done
        invariant
            pos <= body@.len(),
            !done ==> split_on(body@, AMPERSAND) == segs_done + split_on(
                body@.skip(pos as int),
                AMPERSAND,
            ),
            done ==> split_on(body@, AMPERSAND) == segs_done,
            ({
                let ns = key_values(pairs_from(segs_done), name_key());
                let es = key_values(pairs_from(segs_done), email_key());
                &&& (name_first is None <==> ns.len() == 0)
                &&& (name_first matches Some(v) ==> ns.len() >= 1 && v@ == ns[0])
                &&& (name_dup <==> ns.len() > 1)
                &&& (email_first is None <==> es.len() == 0)
                &&& (email_first matches Some(v) ==> es.len() >= 1 && v@ == es[0])
                &&& (email_dup <==> es.len() > 1)
            }),
        decreases body@.len() - pos + (if done {
            0int
        } else {
            1int
        }),
    {
        let seg_end: usize = find_in_range(body, pos, body.len(), AMPERSAND);
        let ghost seg: Seq<u8> = body@.subrange(pos as int, seg_end as int);
        proof {
            if seg_end < body@.len() {
                assert forall|j: int| 0 <= j < seg_end - pos implies body@.skip(pos as int)[j]
                    != AMPERSAND by {
                    assert(body@.skip(pos as int)[j] == body@[pos + j]);
                }
                lemma_split_on_at_sep(body@.skip(pos as int), AMPERSAND, seg_end - pos);
                assert(body@.skip(pos as int).take(seg_end - pos) =~= seg);
                assert(body@.skip(pos as int).skip(seg_end - pos + 1) =~= body@.skip(
                    seg_end as int + 1,
                ));
                assert(split_on(body@, AMPERSAND) =~= (segs_done + seq![seg]) + split_on(
                    body@.skip(seg_end as int + 1),
                    AMPERSAND,
                ));
            } else {
                assert forall|j: int| 0 <= j < body@.skip(pos as int).len() implies body@.skip(
                    pos as int,
                )[j] != AMPERSAND by {
                    assert(body@.skip(pos as int)[j] == body@[pos + j]);
                }
                lemma_split_on_no_sep(body@.skip(pos as int), AMPERSAND);
                assert(body@.skip(pos as int) =~= seg);
                assert(split_on(body@, AMPERSAND) =~= segs_done + seq![seg]);
            }
        }
        let ghost old_segs = segs_done;
        proof {
            segs_done = segs_done + seq![seg];
            assert(segs_done.drop_last() =~= old_segs);
        }
        if seg_end > pos {
            let eq_pos: usize = find_in_range(body, pos, seg_end, EQUALS_SIGN);
            let key = percent_decode_exec(&body[pos..eq_pos]);
            let value: Vec<u8> = if eq_pos < seg_end {
                percent_decode_exec(&body[eq_pos + 1..seg_end])
            } else {
                Vec::new()
            };
            proof {
                if eq_pos < seg_end {
                    assert forall|j: int| 0 <= j < eq_pos - pos implies seg[j] != EQUALS_SIGN by {
                        assert(seg[j] == body@[pos + j]);
                    }
                    lemma_split_pair_at(seg, eq_pos - pos);
                    assert(seg.take(eq_pos - pos) =~= body@.subrange(pos as int, eq_pos as int));
                    assert(seg.skip(eq_pos - pos + 1) =~= body@.subrange(
                        eq_pos as int + 1,
                        seg_end as int,
                    ));
                } else {
                    assert forall|j: int| 0 <= j < seg.len() implies seg[j] != EQUALS_SIGN by {
                        assert(seg[j] == body@[pos + j]);
                    }
                    lemma_split_pair_no_eq(seg);
                    assert(seg =~= body@.subrange(pos as int, eq_pos as int));
                    assert(percent_decode(Seq::<u8>::empty()) =~= Seq::<u8>::empty());
                }
                assert(decoded_pair(seg) == (key@, value@));
                assert(pairs_from(segs_done) =~= pairs_from(old_segs) + seq![(key@, value@)]);
                assert(pairs_from(segs_done).drop_last() =~= pairs_from(old_segs));
            }
            let is_name = is_name_key(&key);
            let is_email = is_email_key(&key);
            proof {
                let ns = key_values(pairs_from(old_segs), name_key());
                let es = key_values(pairs_from(old_segs), email_key());
                if is_name {
                    assert(key_values(pairs_from(segs_done), name_key()) =~= ns + seq![value@]);
                    assert(key_values(pairs_from(segs_done), email_key()) =~= es);
                } else if is_email {
                    assert(key_values(pairs_from(segs_done), name_key()) =~= ns);
                    assert(key_values(pairs_from(segs_done), email_key()) =~= es + seq![value@]);
                } else {
                    assert(key_values(pairs_from(segs_done), name_key()) =~= ns);
                    assert(key_values(pairs_from(segs_done), email_key()) =~= es);
                }
            }
            if is_name {
                if name_first.is_some() {
                    name_dup = true;
                } else {
                    name_first = Some(value);
                }
            } else if is_email {
                if email_first.is_some() {
                    email_dup = true;
                } else {
                    email_first = Some(value);
                }
            }
        } else {
            proof {
                assert(pairs_from(segs_done) =~= pairs_from(old_segs));
            }
        }
        if seg_end < body.len() {
            pos = seg_end + 1;
        } else {
            done = true;
        }
    }
    if name_dup {
        Err(FormError::DuplicateName)
    } else if email_dup {
        Err(FormError::DuplicateEmail)
    } else {
        match (name_first, email_first) {
            (Some(n), Some(e)) => Ok(
                FormData { name: bytes_to_string_lossy(n), email: bytes_to_string_lossy(e) },
            ),
            (None, _) => Err(FormError::MissingName),
            (_, None) => Err(FormError::MissingEmail),
        }
    }
}

} // verus!
