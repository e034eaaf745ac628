use vstd::prelude::*;

verus! {

/// A 16-bit sample reinterpreted as its unsigned two's-complement image,
/// the value its bytes encode on the wire.
pub open spec fn sample_as_u16(s: i16) -> u16 {
    if s >= 0 {
        s as u16
    } else {
        (s + 0x10000) as u16
    }
}

/// The low byte of a sample's little-endian encoding.
pub open spec fn le_lo(s: i16) -> u8 {
    (sample_as_u16(s) % 256) as u8
}

/// The high byte of a sample's little-endian encoding.
pub open spec fn le_hi(s: i16) -> u8 {
    (sample_as_u16(s) / 256) as u8
}

/// The two-byte little-endian encoding of one sample: low byte first.
pub open spec fn le_bytes(s: i16) -> Seq<u8> {
    seq![le_lo(s), le_hi(s)]
}

/// The little-endian encoding of a whole block of samples, flat, in order.
pub open spec fn encoded(samples: Seq<i16>) -> Seq<u8>
    decreases samples.len(),
{
    if samples.len() == 0 {
        Seq::<u8>::empty()
    } else {
        le_bytes(samples[0]) + encoded(samples.skip(1))
    }
}

/// Appending one sample to a block appends exactly its two encoded bytes.
pub proof fn lemma_encoded_snoc(samples: Seq<i16>, s: i16)
    ensures
        encoded(samples.push(s)) == encoded(samples) + le_bytes(s),
    decreases samples.len(),
{
    let t = samples.push(s);
    if samples.len() == 0 {
        assert(t[0] == s);
        assert(t.skip(1) == Seq::<i16>::empty()) by {
            assert(t.skip(1) =~= Seq::<i16>::empty());
        }
        assert(encoded(t) == le_bytes(s) + encoded(Seq::<i16>::empty()));
        assert(encoded(t) =~= encoded(samples) + le_bytes(s));
    } else {
        assert(t[0] == samples[0]);
        assert(t.skip(1) == samples.skip(1).push(s)) by {
            assert(t.skip(1) =~= samples.skip(1).push(s));
        }
        lemma_encoded_snoc(samples.skip(1), s);
        assert(encoded(t) == le_bytes(samples[0]) + (encoded(samples.skip(1)) + le_bytes(s)));
        assert(encoded(t) =~= encoded(samples) + le_bytes(s));
    }
}

/// Encoding doubles the length: two bytes for each sample.
pub proof fn lemma_encoded_len(samples: Seq<i16>)
    ensures
        encoded(samples).len() == 2 * samples.len(),
    decreases samples.len(),
{
    if samples.len() > 0 {
        lemma_encoded_len(samples.skip(1));
    }
}

/// Encodes one sample as two little-endian bytes, low byte first, whatever
/// order the host stores integers in.
pub fn encode_sample(s: i16) -> (out: (u8, u8))
    ensures
        out.0 == le_lo(s),
        out.1 == le_hi(s),
{
    let u: u16 = if s >= 0 {
        s as u16
    } else {
        ((s as i32) + 0x10000) as u16
    };
    assert(u == sample_as_u16(s));
    let lo: u8 = (u % 256) as u8;
    let hi: u8 = (u / 256) as u8;
    (lo, hi)
}

/// Encodes a block of samples into the flat little-endian byte stream that
/// enters the ring buffer: every sample contributes its two bytes, low byte
/// first, independent of host byte order.
pub fn encode_block(samples: &[i16]) -> (out: Vec<u8>)
    ensures
        out@ == encoded(samples@),
{
    let n = samples.len();
    let mut out: Vec<u8> = Vec::new();
    let mut i: usize = 0;
    while i < n
        invariant
            n == samples@.len(),
            i <= n,
            out@ == encoded(samples@.take(i as int)),
        decreases n - i,
    {
        let (lo, hi) = encode_sample(samples[i]);
        out.push(lo);
        out.push(hi);
        proof {
            let prefix = samples@.take(i as int);
            assert(samples@.take(i as int + 1) =~= prefix.push(samples@[i as int]));
            lemma_encoded_snoc(prefix, samples@[i as int]);
            assert(out@ =~= encoded(prefix) + le_bytes(samples@[i as int]));
        }
        i += 1;
    }
    proof {
        assert(samples@.take(n as int) =~= samples@);
    }
    out
}

/// The byte order the host stores integers in, found once at startup so that
/// a big-endian host can be warned that its samples are being converted.
#[derive(Clone, Copy, PartialEq, Eq, Structural, Debug)]
pub enum HostOrder {
    Little,
    Big,
}

/// Relies on `byteordered::Endianness::native`: which byte order this machine
/// stores integers in.  The result depends on the machine alone, so nothing
/// is promised of it; the encoder produces little-endian bytes either way.
#[verifier::external_body]
pub fn native_order() -> HostOrder {
    match byteordered::Endianness::native() {
        byteordered::Endianness::Little => HostOrder::Little,
        byteordered::Endianness::Big => HostOrder::Big,
    }
}

} // verus!
