//! The wire form of a domain name.
//!
//! A dotted hostname travels as a sequence of labels, each a length byte
//! followed by that many bytes, closed by a single zero byte. Empty labels
//! are dropped on encoding; a label longer than one length byte can express
//! is refused. Everything here works on the hostname's bytes: in UTF-8 a dot
//! byte only ever encodes the dot character, so cutting on the byte is
//! cutting on the character.

use crate::errors::DnsError;
use crate::split::{
    glue_first, join_seq, lemma_join_push, lemma_join_split, lemma_split_nonempty,
    lemma_split_step_match, lemma_split_step_nomatch, split_seq,
};
use vstd::prelude::*;
use vstd::slice::slice_subrange;

verus! {

/// The byte that separates labels in a dotted hostname.
pub const DOT: u8 = 46;

/// The dot-delimited labels of a hostname's bytes.
pub open spec fn host_labels(h: Seq<u8>) -> Seq<Seq<u8>> {
    split_seq(h, seq![DOT])
}

/// One encoded label: its length byte followed by its bytes. An empty label
/// is dropped.
pub open spec fn encode_label(l: Seq<u8>) -> Seq<u8> {
    if l.len() == 0 {
        Seq::empty()
    } else {
        seq![l.len() as u8] + l
    }
}

/// The label section of an encoded name, without the terminator.
pub open spec fn encode_labels(ls: Seq<Seq<u8>>) -> Seq<u8>
    decreases ls.len(),
{
    if ls.len() == 0 {
        Seq::empty()
    } else {
        encode_label(ls[0]) + encode_labels(ls.drop_first())
    }
}

/// The full wire form of a hostname: each non-empty label length-prefixed,
/// then a zero terminator.
pub open spec fn encode_name(h: Seq<u8>) -> Seq<u8> {
    encode_labels(host_labels(h)) + seq![0u8]
}

/// Every label of `h` fits in one length byte.
pub open spec fn labels_fit(h: Seq<u8>) -> bool {
    forall|i: int|
        0 <= i < host_labels(h).len() ==> (#[trigger] host_labels(h)[i]).len() <= 255
}

/// Every label of `h` is non-empty and at most 63 bytes long: the names DNS
/// proper allows.
pub open spec fn valid_hostname(h: Seq<u8>) -> bool {
    forall|i: int|
        0 <= i < host_labels(h).len() ==> 1 <= (#[trigger] host_labels(h)[i]).len() <= 63
}

/// The labels read back from wire form: length-prefixed pieces up to the
/// zero terminator, or nothing when the bytes run out first.
pub open spec fn decode_labels(w: Seq<u8>) -> Option<Seq<Seq<u8>>>
    decreases w.len(),
{
    if w.len() == 0 {
        None
    } else if w[0] == 0 {
        Some(Seq::<Seq<u8>>::empty())
    } else if w.len() < 1 + w[0] {
        None
    } else {
        match decode_labels(w.skip(1 + w[0] as int)) {
            None => None,
            Some(ls) => Some(seq![w.subrange(1, 1 + w[0] as int)] + ls),
        }
    }
}

/// The hostname read back from wire form: the decoded labels joined with
/// dots.
pub open spec fn decode_name(w: Seq<u8>) -> Option<Seq<u8>> {
    match decode_labels(w) {
        None => None,
        Some(ls) => Some(join_seq(ls, seq![DOT])),
    }
}

/// Encoding distributes over concatenation of label lists.
proof fn lemma_encode_labels_concat(a: Seq<Seq<u8>>, b: Seq<Seq<u8>>)
    ensures
        encode_labels(a + b) == encode_labels(a) + encode_labels(b),
    decreases a.len(),
{
    if a.len() == 0 {
        assert(a + b =~= b);
        assert(encode_labels(a) + encode_labels(b) =~= encode_labels(b));
    } else {
        assert((a + b).drop_first() =~= a.drop_first() + b);
        lemma_encode_labels_concat(a.drop_first(), b);
        assert(encode_labels(a + b) =~= encode_labels(a) + encode_labels(b));
    }
}

/// Decoding undoes encoding on any list of labels that each fill one to 255
/// bytes.
proof fn lemma_decode_encode_labels(ls: Seq<Seq<u8>>)
    requires
        forall|i: int| 0 <= i < ls.len() ==> 1 <= (#[trigger] ls[i]).len() <= 255,
    ensures
        decode_labels(encode_labels(ls) + seq![0u8]) == Some(ls),
    decreases ls.len(),
{
    let w = encode_labels(ls) + seq![0u8];
    if ls.len() == 0 {
        assert(w =~= seq![0u8]);
        assert(decode_labels(w) == Some(Seq::<Seq<u8>>::empty()));
        assert(Seq::<Seq<u8>>::empty() =~= ls);
    } else {
        let l = ls[0];
        let rest = encode_labels(ls.drop_first()) + seq![0u8];
        assert(w =~= (seq![l.len() as u8] + l) + rest);
        assert(w[0] == l.len() as u8);
        assert(1 <= w[0] <= 255);
        assert(w.len() >= 1 + l.len() + 1);
        assert(w.len() >= 1 + w[0]);
        assert(w.subrange(1, 1 + w[0] as int) =~= l);
        assert(w.skip(1 + w[0] as int) =~= rest);
        lemma_decode_encode_labels(ls.drop_first());
        assert(seq![l] + ls.drop_first() =~= ls);
    }
}

/// Round trip through wire form: a hostname whose labels are all non-empty
/// and at most 63 bytes decodes back from its own encoding.
pub proof fn lemma_name_round_trip(h: Seq<u8>)
    requires
        valid_hostname(h),
    ensures
        decode_name(encode_name(h)) == Some(h),
{
    lemma_decode_encode_labels(host_labels(h));
    lemma_join_split(h, seq![DOT]);
}

/// Cuts a hostname's bytes at each dot.
fn split_host(h: &Vec<u8>) -> (r: Vec<Vec<u8>>)
    ensures
        r.deep_view() == host_labels(h@),
{
    let ghost sep: Seq<u8> = seq![DOT];
    let mut labs: Vec<Vec<u8>> = Vec::new();
    let mut cur: Vec<u8> = Vec::new();
    let mut i: usize = 0;
    proof {
        lemma_split_nonempty(h@, sep);
        assert(h@.skip(0) =~= h@);
        assert(labs.deep_view() + glue_first(cur@, split_seq(h@, sep)) =~~= split_seq(h@, sep));
    }
    while i < h.len()
        invariant
            i <= h.len(),
            host_labels(h@) == labs.deep_view() + glue_first(
                cur@,
                split_seq(h@.skip(i as int), sep),
            ),
            sep == seq![DOT],
        decreases h.len() - i,
    {
        let ghost prev_labs = labs.deep_view();
        let ghost prev_cur = cur@;
        let ghost tail = split_seq(h@.skip(i as int), sep);
        let b = h[i];
        if b == DOT {
            proof {
                assert(h@.subrange(i as int, i as int + 1) =~= seq![DOT]);
                lemma_split_step_match(h@, sep, i as int);
                lemma_split_nonempty(h@.skip(i as int + 1), sep);
                assert(glue_first(prev_cur, tail) =~~= seq![prev_cur] + glue_first(
                    Seq::<u8>::empty(),
                    split_seq(h@.skip(i as int + 1), sep),
                ));
            }
            labs.push(cur);
            cur = Vec::new();
            proof {
                assert(labs.deep_view() =~~= prev_labs.push(prev_cur));
                assert(labs.deep_view() + glue_first(
                    cur@,
                    split_seq(h@.skip(i as int + 1), sep),
                ) =~~= prev_labs + glue_first(prev_cur, tail));
            }
        } else {
            proof {
                assert(h@.subrange(i as int, i as int + 1) =~= seq![h@[i as int]]);
                if h@.subrange(i as int, i as int + 1) == sep {
                    assert(h@[i as int] == DOT);
                }
                lemma_split_step_nomatch(h@, sep, i as int);
                lemma_split_nonempty(h@.skip(i as int + 1), sep);
            }
            cur.push(b);
            proof {
                assert(glue_first(prev_cur, tail) =~~= glue_first(
                    cur@,
                    split_seq(h@.skip(i as int + 1), sep),
                ));
            }
        }
        i = i + 1;
    }
    let ghost prev_labs = labs.deep_view();
    let ghost prev_cur = cur@;
    proof {
        assert(h@.skip(i as int) =~= Seq::<u8>::empty());
        assert(split_seq(h@.skip(i as int), sep) == seq![Seq::<u8>::empty()]);
        assert(glue_first(prev_cur, seq![Seq::<u8>::empty()]) =~~= seq![prev_cur]);
    }
    labs.push(cur);
    proof {
        assert(labs.deep_view() =~~= prev_labs.push(prev_cur));
        assert(labs.deep_view() =~~= host_labels(h@));
    }
    labs
}

/// Appends every byte of `src` to `out`.
pub(crate) fn push_bytes(out: &mut Vec<u8>, src: &Vec<u8>)
    ensures
        final(out)@ == old(out)@ + src@,
{
    let mut k: usize = 0;
    while k < src.len()
        invariant
            k <= src.len(),
            out@ == old(out)@ + src@.take(k as int),
        decreases src.len() - k,
    {
        out.push(src[k]);
        proof {
            assert(old(out)@ + src@.take(k as int + 1) =~= (old(out)@ + src@.take(
                k as int,
            )).push(src@[k as int]));
        }
        k = k + 1;
    }
    proof {
        assert(src@.take(src@.len() as int) =~= src@);
    }
}

/// Encodes a hostname's bytes into wire form, refusing any label longer than
/// one length byte can state.
pub fn encode_host_bytes(h: &Vec<u8>) -> (r: Result<Vec<u8>, DnsError>)
    ensures
        labels_fit(h@) ==> (r matches Ok(v) && v@ == encode_name(h@)),
        !labels_fit(h@) ==> r == Err::<Vec<u8>, DnsError>(DnsError::EncodingError),
{
    let labs = split_host(h);
    let ghost dv = labs.deep_view();
    let mut out: Vec<u8> = Vec::new();
    let mut j: usize = 0;
    proof {
        assert(dv.take(0) =~~= Seq::<Seq<u8>>::empty());
    }
    while j < labs.len()
        invariant
            j <= labs.len(),
            dv == labs.deep_view(),
            dv == host_labels(h@),
            out@ == encode_labels(dv.take(j as int)),
            forall|k: int| 0 <= k < j ==> (#[trigger] dv[k]).len() <= 255,
        decreases labs.len() - j,
    {
        let lab = &labs[j];
        proof {
            assert(lab@ == dv[j as int]);
        }
        if lab.len() > 255 {
            proof {
                assert(!labels_fit(h@));
            }
            return Err(DnsError::EncodingError);
        }
        let ghost before = out@;
        if lab.len() > 0 {
            out.push(lab.len() as u8);
        }
        push_bytes(&mut out, lab);
        proof {
            assert(out@ =~= before + encode_label(dv[j as int]));
            assert(dv.take(j as int + 1) =~= dv.take(j as int) + seq![dv[j as int]]);
            lemma_encode_labels_concat(dv.take(j as int), seq![dv[j as int]]);
            assert(seq![dv[j as int]].drop_first() =~~= Seq::<Seq<u8>>::empty());
            assert(encode_labels(seq![dv[j as int]]) =~= encode_label(dv[j as int])
                + encode_labels(Seq::<Seq<u8>>::empty()));
            assert(encode_labels(seq![dv[j as int]]) =~= encode_label(dv[j as int]));
        }
        j = j + 1;
    }
    proof {
        assert(dv.take(labs.len() as int) =~= dv);
        assert(labels_fit(h@));
    }
    out.push(0);
    proof {
        assert(out@ =~= encode_labels(dv) + seq![0u8]);
    }
    Ok(out)
}

/// Reads length-prefixed labels from `w` up to the zero terminator.
fn parse_labels(w: &[u8]) -> (r: Result<Vec<Vec<u8>>, DnsError>)
    ensures
        decode_labels(w@) is Some ==> (r matches Ok(v) && Some(v.deep_view()) == decode_labels(
            w@,
        )),
        decode_labels(w@) is None ==> r == Err::<Vec<Vec<u8>>, DnsError>(
            DnsError::TruncatedMessage,
        ),
{
    let mut labs: Vec<Vec<u8>> = Vec::new();
    let mut pos: usize = 0;
    proof {
        assert(w@.skip(0) =~= w@);
        match decode_labels(w@) {
            Option::None => {},
            Option::Some(fut) => {
                assert(labs.deep_view() + fut =~~= fut);
            },
        }
    }
    while pos < w.len()
        invariant
            pos <= w@.len(),
            match decode_labels(w@.skip(pos as int)) {
                Option::None => decode_labels(w@) is None,
                Option::Some(fut) => decode_labels(w@) == Some(labs.deep_view() + fut),
            },
        decreases w@.len() - pos,
    {
        let ghost rest = w@.skip(pos as int);
        let b = w[pos];
        proof {
            assert(rest[0] == w@[pos as int]);
        }
        if b == 0 {
            proof {
                assert(decode_labels(rest) == Some(Seq::<Seq<u8>>::empty()));
                assert(labs.deep_view() + Seq::<Seq<u8>>::empty() =~~= labs.deep_view());
            }
            return Ok(labs);
        }
        if w.len() - pos < 1 + (b as usize) {
            proof {
                assert(rest.len() < 1 + rest[0]);
                assert(decode_labels(rest) is None);
            }
            return Err(DnsError::TruncatedMessage);
        }
        let lab_slice = slice_subrange(w, pos + 1, pos + 1 + (b as usize));
        let lab = vstd::slice::slice_to_vec(lab_slice);
        let ghost prev_labs = labs.deep_view();
        labs.push(lab);
        proof {
            assert(labs.deep_view() =~~= prev_labs.push(lab@));
            assert(rest.subrange(1, 1 + rest[0] as int) =~= w@.subrange(
                pos as int + 1,
                pos as int + 1 + b as int,
            ));
            assert(rest.skip(1 + rest[0] as int) =~= w@.skip(pos as int + 1 + b as int));
            match decode_labels(w@.skip(pos as int + 1 + b as int)) {
                Option::None => {
                    assert(decode_labels(rest) is None);
                }
                Option::Some(fut) => {
                    assert(decode_labels(rest) == Some(seq![lab@] + fut));
                    assert(prev_labs + (seq![lab@] + fut) =~~= labs.deep_view() + fut);
                }
            }
        }
        pos = pos + 1 + (b as usize);
    }
    proof {
        assert(w@.skip(pos as int) =~= Seq::<u8>::empty());
        assert(decode_labels(w@.skip(pos as int)) is None);
    }
    Err(DnsError::TruncatedMessage)
}

/// Joins labels with dots.
fn join_host(labs: &Vec<Vec<u8>>) -> (r: Vec<u8>)
    ensures
        r@ == join_seq(labs.deep_view(), seq![DOT]),
{
    let ghost dv = labs.deep_view();
    let ghost sep: Seq<u8> = seq![DOT];
    let mut out: Vec<u8> = Vec::new();
    if labs.len() == 0 {
        return out;
    }
    push_bytes(&mut out, &labs[0]);
    proof {
        assert(dv.take(1) =~~= seq![dv[0]]);
        assert(out@ =~= join_seq(dv.take(1), sep));
    }
    let mut j: usize = 1;
    while j < labs.len()
        invariant
            1 <= j <= labs.len(),
            dv == labs.deep_view(),
            out@ == join_seq(dv.take(j as int), sep),
            sep == seq![DOT],
        decreases labs.len() - j,
    {
        let ghost before = out@;
        out.push(DOT);
        push_bytes(&mut out, &labs[j]);
        proof {
            assert(dv.take(j as int + 1) =~~= dv.take(j as int).push(dv[j as int]));
            lemma_join_push(dv.take(j as int), sep, dv[j as int]);
            assert(out@ =~= before + sep + dv[j as int]);
        }
        j = j + 1;
    }
    proof {
        assert(dv.take(labs.len() as int) =~~= dv);
    }
    out
}

/// Decodes a name's wire form back to a dotted hostname's bytes.
pub fn decode_host_bytes(w: &[u8]) -> (r: Result<Vec<u8>, DnsError>)
    ensures
        decode_name(w@) is Some ==> (r matches Ok(v) && Some(v@) == decode_name(w@)),
        decode_name(w@) is None ==> r == Err::<Vec<u8>, DnsError>(DnsError::TruncatedMessage),
{
    match parse_labels(w) {
        Ok(labs) => Ok(join_host(&labs)),
        Err(e) => Err(e),
    }
}

} // verus!
