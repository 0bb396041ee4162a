//! Byte-level text utilities: substring search, leftmost non-overlapping
//! replacement, and decimal formatting of sizes.
//!
//! Template instantiation is textual, so these are the whole of its
//! machinery. [`replace_all_spec`] states the replacement in the usual
//! way: scan left to right, replace each occurrence of the pattern, and
//! continue after the replacement.

use vstd::prelude::*;

verus! {

/// `pat` occurs in `text` at position `i`.
pub open spec fn matches_at(text: Seq<u8>, pat: Seq<u8>, i: int) -> bool {
    &&& 0 <= i
    &&& i + pat.len() <= text.len()
    &&& text.subrange(i, i + pat.len()) == pat
}

/// `pat` occurs somewhere in `text`.
pub open spec fn contains_seq(text: Seq<u8>, pat: Seq<u8>) -> bool {
    exists|i: int| matches_at(text, pat, i)
}

/// The result of replacing every occurrence of `pat` in `text` by `rep`,
/// scanning left to right and never rescanning replaced text. An empty
/// pattern replaces nothing.
pub open spec fn replace_all_spec(text: Seq<u8>, pat: Seq<u8>, rep: Seq<u8>) -> Seq<u8>
    decreases text.len(),
{
    if pat.len() == 0 || text.len() < pat.len() {
        text
    } else if text.take(pat.len() as int) == pat {
        rep + replace_all_spec(text.skip(pat.len() as int), pat, rep)
    } else {
        seq![text[0]] + replace_all_spec(text.skip(1), pat, rep)
    }
}

/// The decimal digit characters of `n`, most significant first, as bytes.
pub open spec fn dec_digits(n: nat) -> Seq<u8>
    decreases n,
{
    if n < 10 {
        seq![(48 + n) as u8]
    } else {
        dec_digits(n / 10) + seq![(48 + n % 10) as u8]
    }
}

/// Appends all of `src` to `out`.
pub fn append_bytes(out: &mut Vec<u8>, src: &Vec<u8>)
    ensures
        final(out)@ == old(out)@ + src@,
{
    let mut j: usize = 0;
    while j < src.len()
        invariant
            0 <= j <= src@.len(),
            out@ == old(out)@ + src@.take(j as int),
        decreases src@.len() - j,
    {
        out.push(src[j]);
        proof {
            assert(old(out)@ + src@.take(j as int) + seq![src@[j as int]] =~= old(out)@
                + src@.take(j + 1));
        }
        j = j + 1;
    }
    proof {
        assert(old(out)@ + src@.take(src@.len() as int) =~= old(out)@ + src@);
    }
}

/// Whether two byte buffers hold the same bytes.
pub fn bytes_equal(a: &Vec<u8>, b: &Vec<u8>) -> (r: bool)
    ensures
        r == (a@ == b@),
{
    let alen = a.len();
    if alen != b.len() {
        return false;
    }
    let mut i: usize = 0;
    while i < alen
        invariant
            alen == a@.len() == b@.len(),
            0 <= i <= alen,
            forall|j: int| 0 <= j < i ==> a@[j] == b@[j],
        decreases alen - i,
    {
        if a[i] != b[i] {
            return false;
        }
        i = i + 1;
    }
    proof {
        assert(a@ =~= b@);
    }
    true
}

/// Whether `pat` occurs in `text` at position `i`.
fn match_at(text: &Vec<u8>, pat: &Vec<u8>, i: usize) -> (r: bool)
    requires
        i + pat@.len() <= text@.len(),
    ensures
        r == matches_at(text@, pat@, i as int),
{
    let tlen = text.len();
    let plen = pat.len();
    let mut j: usize = 0;
    while j < plen
        invariant
            tlen == text@.len(),
            plen == pat@.len(),
            0 <= j <= plen,
            i + plen <= tlen,
            forall|q: int| 0 <= q < j ==> text@[i + q] == pat@[q],
        decreases plen - j,
    {
        if text[i + j] != pat[j] {
            proof {
                let sub = text@.subrange(i as int, i + pat@.len());
                assert(sub[j as int] == text@[i + j]);
            }
            return false;
        }
        j = j + 1;
    }
    proof {
        assert(text@.subrange(i as int, i + pat@.len()) =~= pat@);
    }
    true
}

/// Whether `pat` occurs anywhere in `text`; an empty pattern occurs
/// everywhere.
pub fn contains_pattern(text: &Vec<u8>, pat: &Vec<u8>) -> (r: bool)
    ensures
        r == contains_seq(text@, pat@),
{
    if pat.len() == 0 {
        proof {
            assert(text@.subrange(0, 0) =~= pat@);
            assert(matches_at(text@, pat@, 0));
        }
        return true;
    }
    if pat.len() > text.len() {
        return false;
    }
    let bound = text.len() - pat.len();
    let mut i: usize = 0;
    while i <= bound
        invariant
            bound == text@.len() - pat@.len(),
            bound <= text@.len() <= usize::MAX,
            pat@.len() >= 1,
            0 <= i <= bound + 1,
            forall|q: int| 0 <= q < i ==> !matches_at(text@, pat@, q),
        decreases bound + 1 - i,
    {
        if match_at(text, pat, i) {
            return true;
        }
        i = i + 1;
    }
    false
}

/// Replaces every occurrence of `pat` in `text` by `rep`, scanning left to
/// right and never rescanning replaced text.
pub fn replace_all(text: &Vec<u8>, pat: &Vec<u8>, rep: &Vec<u8>) -> (r: Vec<u8>)
    ensures
        r@ == replace_all_spec(text@, pat@, rep@),
{
    let mut out: Vec<u8> = Vec::new();
    if pat.len() == 0 {
        append_bytes(&mut out, text);
        return out;
    }
    let mut i: usize = 0;
    proof {
        assert(text@.skip(0) =~= text@);
        assert(out@ + replace_all_spec(text@, pat@, rep@) =~= replace_all_spec(
            text@,
            pat@,
            rep@,
        ));
    }
    while text.len() - i >= pat.len()
        invariant
            pat@.len() >= 1,
            0 <= i <= text@.len(),
            replace_all_spec(text@, pat@, rep@) == out@ + replace_all_spec(
                text@.skip(i as int),
                pat@,
                rep@,
            ),
        decreases text@.len() - i,
    {
        let ghost remaining = text@.skip(i as int);
        proof {
            assert(remaining.len() == text@.len() - i);
        }
        if match_at(text, pat, i) {
            proof {
                assert(remaining.take(pat@.len() as int) =~= text@.subrange(
                    i as int,
                    i + pat@.len(),
                ));
                assert(remaining.skip(pat@.len() as int) =~= text@.skip(i + pat@.len()));
                assert(out@ + (rep@ + replace_all_spec(text@.skip(i + pat@.len()), pat@, rep@))
                    =~= (out@ + rep@) + replace_all_spec(text@.skip(i + pat@.len()), pat@, rep@));
            }
            append_bytes(&mut out, rep);
            i = i + pat.len();
        } else {
            proof {
                assert(remaining.take(pat@.len() as int) =~= text@.subrange(
                    i as int,
                    i + pat@.len(),
                ));
                assert(remaining.skip(1) =~= text@.skip(i + 1));
                assert(remaining[0] == text@[i as int]);
                assert(out@ + (seq![text@[i as int]] + replace_all_spec(
                    text@.skip(i + 1),
                    pat@,
                    rep@,
                )) =~= out@.push(text@[i as int]) + replace_all_spec(text@.skip(i + 1), pat@, rep@));
            }
            out.push(text[i]);
            i = i + 1;
        }
    }
    while i < text.len()
        invariant
            pat@.len() >= 1,
            0 <= i <= text@.len(),
            text@.len() - i < pat@.len(),
            replace_all_spec(text@, pat@, rep@) == out@ + replace_all_spec(
                text@.skip(i as int),
                pat@,
                rep@,
            ),
        decreases text@.len() - i,
    {
        let ghost remaining = text@.skip(i as int);
        proof {
            assert(remaining.len() == text@.len() - i);
            assert(replace_all_spec(remaining, pat@, rep@) == remaining);
            assert(remaining =~= seq![text@[i as int]] + text@.skip(i + 1));
            assert(text@.skip(i + 1).len() < pat@.len());
            assert(replace_all_spec(text@.skip(i + 1), pat@, rep@) == text@.skip(i + 1));
            assert(out@ + (seq![text@[i as int]] + text@.skip(i + 1)) =~= out@.push(
                text@[i as int],
            ) + text@.skip(i + 1));
        }
        out.push(text[i]);
        i = i + 1;
    }
    proof {
        assert(text@.skip(text@.len() as int).len() == 0);
        assert(out@ + text@.skip(i as int) =~= out@);
    }
    out
}

/// The decimal digit characters of `n`, most significant first.
pub fn format_usize(n: usize) -> (r: Vec<u8>)
    ensures
        r@ == dec_digits(n as nat),
    decreases n,
{
    if n < 10 {
        let mut out: Vec<u8> = Vec::new();
        out.push(48 + n as u8);
        proof {
            assert(out@ =~= dec_digits(n as nat));
        }
        out
    } else {
        let mut out = format_usize(n / 10);
        out.push(48 + (n % 10) as u8);
        proof {
            assert(dec_digits((n / 10) as nat).push((48 + (n as nat) % 10) as u8)
                =~= dec_digits((n / 10) as nat) + seq![(48 + (n as nat) % 10) as u8]);
        }
        out
    }
}

} // verus!
