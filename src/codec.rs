//! The byte layout the records are kept in between runs: a sequence of
//! fields, each written as its length in four big-endian bytes followed by
//! its bytes.
use vstd::prelude::*;

verus! {

/// The number four big-endian bytes stand for.
pub open spec fn be32(b: Seq<u8>) -> nat {
    (b[0] as nat) * 0x1000000 + (b[1] as nat) * 0x10000 + (b[2] as nat) * 0x100 + (b[3] as nat)
}

/// The four big-endian bytes of `n`.
pub open spec fn be32_bytes(n: nat) -> Seq<u8> {
    seq![
        ((n / 0x1000000) % 0x100) as u8,
        ((n / 0x10000) % 0x100) as u8,
        ((n / 0x100) % 0x100) as u8,
        (n % 0x100) as u8,
    ]
}

/// One field: its length, then its bytes.
pub open spec fn frame(f: Seq<u8>) -> Seq<u8> {
    be32_bytes(f.len()) + f
}

pub open spec fn encode_spec(fs: Seq<Seq<u8>>) -> Seq<u8>
    decreases fs.len(),
{
    if fs.len() == 0 {
        Seq::empty()
    } else {
        frame(fs[0]) + encode_spec(fs.drop_first())
    }
}

/// Every field's length fits in four bytes.
pub open spec fn fields_fit(fs: Seq<Seq<u8>>) -> bool {
    forall|i: int| 0 <= i < fs.len() ==> (#[trigger] fs[i]).len() < 0x1_0000_0000
}

pub open spec fn decode_spec(b: Seq<u8>) -> Option<Seq<Seq<u8>>>
    decreases b.len(),
{
    if b.len() == 0 {
        Some(Seq::empty())
    } else if b.len() < 4 || 4 + be32(b) > b.len() {
        None
    } else {
        let n = be32(b) as int;
        match decode_spec(b.subrange(4 + n, b.len() as int)) {
            Some(rest) => Some(seq![b.subrange(4, 4 + n)] + rest),
            None => None,
        }
    }
}

proof fn lemma_be32_round_trip(n: nat)
    requires
        n < 0x1_0000_0000,
    ensures
        be32(be32_bytes(n)) == n,
{
    let b = be32_bytes(n);
    assert(b[0] as nat == (n / 0x1000000) % 0x100);
    assert(b[1] as nat == (n / 0x10000) % 0x100);
    assert(b[2] as nat == (n / 0x100) % 0x100);
    assert(b[3] as nat == n % 0x100);
    assert((n / 0x1000000) % 0x100 * 0x1000000 + (n / 0x10000) % 0x100 * 0x10000 + (n / 0x100) % 0x100 * 0x100 + n % 0x100 == n) by (nonlinear_arith)
        requires
            n < 0x1_0000_0000,
    ;
}

proof fn lemma_header(n: nat, rest: Seq<u8>)
    requires
        n < 0x1_0000_0000,
    ensures
        (be32_bytes(n) + rest).len() == 4 + rest.len(),
        be32(be32_bytes(n) + rest) == n,
        (be32_bytes(n) + rest).subrange(4, 4 + rest.len() as int) == rest,
{
    lemma_be32_round_trip(n);
    let h = be32_bytes(n);
    let b = h + rest;
    assert(b[0] == h[0] && b[1] == h[1] && b[2] == h[2] && b[3] == h[3]);
    assert(b.subrange(4, 4 + rest.len() as int) =~= rest);
}

/// Decoding undoes encoding, for fields whose lengths fit.
pub proof fn lemma_decode_encode(fs: Seq<Seq<u8>>)
    requires
        fields_fit(fs),
    ensures
        decode_spec(encode_spec(fs)) == Some(fs),
    decreases fs.len(),
{
    if fs.len() > 0 {
        let f = fs[0];
        let rest = fs.drop_first();
        assert(fields_fit(rest)) by {
            assert forall|i: int| 0 <= i < rest.len() implies (#[trigger] rest[i]).len() < 0x1_0000_0000 by {
                assert(rest[i] == fs[i + 1]);
            }
        }
        lemma_decode_encode(rest);
        let n = f.len() as int;
        let tl = encode_spec(rest);
        let b = encode_spec(fs);
        assert(b =~= be32_bytes(f.len()) + (f + tl));
        lemma_header(f.len(), f + tl);
        assert(b.subrange(4, 4 + n) =~= f);
        assert(b.subrange(4 + n, b.len() as int) =~= tl);
        assert(seq![f] + rest =~= fs);
    }
}

fn push_be32(out: &mut Vec<u8>, n: usize)
    requires
        n < 0x1_0000_0000,
    ensures
        final(out)@ == old(out)@ + be32_bytes(n as nat),
{
    let n = n as u64;
    out.push(((n / 0x1000000) % 0x100) as u8);
    out.push(((n / 0x10000) % 0x100) as u8);
    out.push(((n / 0x100) % 0x100) as u8);
    out.push((n % 0x100) as u8);
    assert(final(out)@ =~= old(out)@ + be32_bytes(n as nat));
}

proof fn lemma_encode_push(fs: Seq<Seq<u8>>, f: Seq<u8>)
    ensures
        encode_spec(fs.push(f)) == encode_spec(fs) + frame(f),
    decreases fs.len(),
{
    if fs.len() == 0 {
        let g = fs.push(f);
        assert(g[0] == f);
        assert(g.drop_first() =~= Seq::<Seq<u8>>::empty());
        assert(encode_spec(g.drop_first()) == Seq::<u8>::empty());
        assert(encode_spec(g) =~= frame(f) + Seq::<u8>::empty());
        assert(encode_spec(fs) == Seq::<u8>::empty());
        assert(encode_spec(g) =~= encode_spec(fs) + frame(f));
    } else {
        assert(fs.push(f).drop_first() =~= fs.drop_first().push(f));
        lemma_encode_push(fs.drop_first(), f);
        assert(encode_spec(fs.push(f)) =~= encode_spec(fs) + frame(f));
    }
}

/// The bytes that stand for `fields`.
pub fn encode_fields(fields: &Vec<Vec<u8>>) -> (r: Vec<u8>)
    requires
        fields_fit(fields@.map_values(|f: Vec<u8>| f@)),
    ensures
        r@ == encode_spec(fields@.map_values(|f: Vec<u8>| f@)),
{
    let ghost fs = fields@.map_values(|f: Vec<u8>| f@);
    let mut out: Vec<u8> = Vec::new();
    let mut i: usize = 0;
    while i < fields.len()
        invariant
            i <= fields.len(),
            fs == fields@.map_values(|f: Vec<u8>| f@),
            fields_fit(fs),
            out@ == encode_spec(fs.subrange(0, i as int)),
        decreases fields.len() - i,
    {
        let f = &fields[i];
        assert(fs[i as int] == f@);
        assert(f@.len() < 0x1_0000_0000);
        let ghost before = out@;
        push_be32(&mut out, f.len());
        let mut k: usize = 0;
        while k < f.len()
            invariant
                k <= f.len(),
                out@ == before + be32_bytes(f@.len()) + f@.subrange(0, k as int),
            decreases f.len() - k,
        {
            out.push(f[k]);
            assert(f@.subrange(0, k + 1) == f@.subrange(0, k as int).push(f@[k as int]));
            k = k + 1;
        }
        assert(f@.subrange(0, f@.len() as int) == f@);
        proof {
            lemma_encode_push(fs.subrange(0, i as int), f@);
            assert(fs.subrange(0, i + 1) =~= fs.subrange(0, i as int).push(f@));
            assert(out@ =~= before + frame(f@));
        }
        i = i + 1;
    }
    assert(fs.subrange(0, fs.len() as int) =~= fs);
    out
}

/// The fields that `b` stands for, or `None` where it is cut short.
pub fn decode_fields(b: &Vec<u8>) -> (r: Option<Vec<Vec<u8>>>)
    ensures
        r matches Some(fs) ==> decode_spec(b@) == Some(fs@.map_values(|f: Vec<u8>| f@)),
        r is None ==> decode_spec(b@) is None,
{
    let mut out: Vec<Vec<u8>> = Vec::new();
    let mut pos: usize = 0;
    assert(b@.subrange(0, b.len() as int) =~= b@);
    assert(out@.map_values(|f: Vec<u8>| f@) =~= Seq::<Seq<u8>>::empty());
    proof {
        match decode_spec(b@) {
            Some(all) => {
                assert(Seq::<Seq<u8>>::empty() + all =~= all);
            },
            None => {},
        }
    }
    while pos < b.len()
        invariant
            pos <= b.len(),
            decode_spec(b@) == match decode_spec(b@.subrange(pos as int, b.len() as int)) {
                Some(rest) => Some(out@.map_values(|f: Vec<u8>| f@) + rest),
                None => None::<Seq<Seq<u8>>>,
            },
        decreases b.len() - pos,
    {
        let ghost rest = b@.subrange(pos as int, b.len() as int);
        if b.len() - pos < 4 {
            assert(decode_spec(rest) is None);
            return None;
        }
        let n: u64 = (b[pos] as u64) * 0x1000000 + (b[pos + 1] as u64) * 0x10000 + (b[pos + 2] as u64) * 0x100 + (b[pos + 3] as u64);
        assert(n == be32(rest));
        if n > (b.len() - pos - 4) as u64 {
            assert(decode_spec(rest) is None);
            return None;
        }
        let n = n as usize;
        let mut f: Vec<u8> = Vec::new();
        let mut k: usize = 0;
        while k < n
            invariant
                k <= n,
                pos + 4 + n <= b.len(),
                f@ == b@.subrange(pos + 4, pos + 4 + k),
            decreases n - k,
        {
            f.push(b[pos + 4 + k]);
            assert(b@.subrange(pos + 4, pos + 4 + k + 1) == b@.subrange(pos + 4, pos + 4 + k).push(b@[pos + 4 + k]));
            k = k + 1;
        }
        let ghost before = out@.map_values(|f: Vec<u8>| f@);
        assert(rest.subrange(4, 4 + n as int) =~= f@);
        assert(rest.subrange(4 + n as int, rest.len() as int) =~= b@.subrange(pos + 4 + n, b.len() as int));
        out.push(f);
        assert(out@.map_values(|f: Vec<u8>| f@) =~= before.push(f@));
        pos = pos + 4 + n;
        proof {
            match decode_spec(b@.subrange(pos as int, b.len() as int)) {
                Some(tail) => {
                    assert(before + (seq![f@] + tail) =~= before.push(f@) + tail);
                },
                None => {},
            }
        }
    }
    assert(b@.subrange(pos as int, b.len() as int) =~= Seq::<u8>::empty());
    assert(out@.map_values(|f: Vec<u8>| f@) + Seq::<Seq<u8>>::empty() =~= out@.map_values(|f: Vec<u8>| f@));
    Some(out)
}

} // verus!
