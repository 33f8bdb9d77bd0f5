//! ECMA-267 primitives: the error detection code (EDC) of a data frame and
//! the 15-bit linear feedback shift register that generates the scrambling
//! stream.

use vstd::prelude::*;

verus! {

/// One bit step of the EDC register: generator polynomial
/// x^32 + x^31 + x^4 + 1, most significant bit first.
pub open spec fn edc_shift(e: u32) -> u32 {
    if e & 0x8000_0000u32 != 0 {
        (e << 1u32) ^ 0x8000_0011u32
    } else {
        e << 1u32
    }
}

/// Eight bit steps of the EDC register.
pub open spec fn edc_shift8(e: u32) -> u32 {
    edc_shift(edc_shift(edc_shift(edc_shift(edc_shift(edc_shift(edc_shift(edc_shift(e))))))))
}

/// The EDC register after absorbing one byte.
pub open spec fn edc_byte(e: u32, b: u8) -> u32 {
    edc_shift8(e ^ ((b as u32) << 24u32))
}

/// The EDC of `data`, starting from the register value `init`.
pub open spec fn edc_spec(init: u32, data: Seq<u8>) -> u32
    decreases data.len(),
{
    if data.len() == 0 {
        init
    } else {
        edc_byte(edc_spec(init, data.drop_last()), data.last())
    }
}

/// Absorbing a byte through the table entry of the top byte equals absorbing it
/// bit by bit.
proof fn lemma_edc_table_step(e: u32, b: u8)
    ensures
        edc_byte(e, b) == edc_shift8((((e >> 24u32) ^ (b as u32)) & 0xFFu32) << 24u32) ^ (e << 8u32),
{
    assert(edc_shift8(e ^ ((b as u32) << 24u32)) == edc_shift8(
        (((e >> 24u32) ^ (b as u32)) & 0xFFu32) << 24u32,
    ) ^ (e << 8u32)) by (bit_vector);
}

/// Appending one byte to the data advances the EDC by one byte step.
pub proof fn lemma_edc_push(init: u32, data: Seq<u8>, b: u8)
    ensures
        edc_spec(init, data.push(b)) == edc_byte(edc_spec(init, data), b),
{
    assert(data.push(b).drop_last() =~= data);
}

/// The EDC's generator polynomial x^32 + x^31 + x^4 + 1, without its x^32
/// term.
pub const EDC_GENERATOR: u32 = 0x8000_0011;

/// The EDC is the CRC of generator x^32 + x^31 + x^4 + 1: absorbing a bit
/// shifts the register left, and the bit that leaves the top (when it is
/// set) brings in exactly the generator's other terms, bits 31, 4 and 0.
/// So every byte step of `edc_calc` and of the table of `EdcTable::new`
/// is eight such multiplications by x modulo the generator.
pub proof fn lemma_edc_generator(e: u32)
    ensures
        edc_shift(e) == (e << 1u32) ^ (if e >> 31u32 == 1 { EDC_GENERATOR } else { 0u32 }),
        e >> 31u32 == 1 ==> edc_shift(e) ^ (e << 1u32) == 0x8000_0011u32,
        e >> 31u32 == 0 ==> edc_shift(e) == e << 1u32,
{
    assert(edc_shift(e) == (e << 1u32) ^ (if e >> 31u32 == 1 { 0x8000_0011u32 } else { 0u32 })) by (bit_vector);
    assert(e >> 31u32 == 1 ==> edc_shift(e) ^ (e << 1u32) == 0x8000_0011u32) by (bit_vector);
    assert(e >> 31u32 == 0 ==> edc_shift(e) == e << 1u32) by (bit_vector);
}

/// One bit step of the EDC register is linear.
proof fn lemma_edc_shift_linear(a: u32, b: u32)
    ensures
        edc_shift(a) ^ edc_shift(b) == edc_shift(a ^ b),
{
    assert(edc_shift(a) ^ edc_shift(b) == edc_shift(a ^ b)) by (bit_vector);
}

/// One byte step of the EDC register is linear in the register and the
/// byte.
proof fn lemma_edc_byte_linear(a: u32, b: u32, p: u8, q: u8)
    ensures
        edc_byte(a, p) ^ edc_byte(b, q) == edc_byte(a ^ b, p ^ q),
{
    let x = a ^ ((p as u32) << 24u32);
    let y = b ^ ((q as u32) << 24u32);
    assert(x ^ y == (a ^ b) ^ (((p ^ q) as u32) << 24u32)) by (bit_vector)
        requires
            x == a ^ ((p as u32) << 24u32),
            y == b ^ ((q as u32) << 24u32),
    ;
    lemma_shift_partial_linear(x, y, 8);
    assert(edc_shift8(x) == edc_shift8_partial(x, 8)) by {
        reveal_with_fuel(edc_shift8_partial, 9);
    }
    assert(edc_shift8(y) == edc_shift8_partial(y, 8)) by {
        reveal_with_fuel(edc_shift8_partial, 9);
    }
    assert(edc_shift8(x ^ y) == edc_shift8_partial(x ^ y, 8)) by {
        reveal_with_fuel(edc_shift8_partial, 9);
    }
}

/// `k` bit steps of the EDC register are linear.
proof fn lemma_shift_partial_linear(a: u32, b: u32, k: int)
    ensures
        edc_shift8_partial(a, k) ^ edc_shift8_partial(b, k) == edc_shift8_partial(a ^ b, k),
    decreases k,
{
    if k > 0 {
        lemma_shift_partial_linear(a, b, k - 1);
        lemma_edc_shift_linear(edc_shift8_partial(a, k - 1), edc_shift8_partial(b, k - 1));
    }
}

/// `k` bit steps of the EDC register (for `k` up to 8).
spec fn edc_shift8_partial(e: u32, k: int) -> u32
    decreases k,
{
    if k <= 0 {
        e
    } else {
        edc_shift(edc_shift8_partial(e, k - 1))
    }
}

/// The EDC is linear: the EDC of two byte strings of the same length XORed
/// together, from the XOR of their initial registers, is the XOR of their
/// EDCs. With `lemma_edc_generator` this makes the EDC of any data the
/// reduction of its bits modulo x^32 + x^31 + x^4 + 1; in particular the
/// EDC of the single byte 1 is the generator itself.
pub proof fn lemma_edc_linear(e1: u32, e2: u32, d1: Seq<u8>, d2: Seq<u8>)
    requires
        d1.len() == d2.len(),
    ensures
        edc_spec(e1, d1) ^ edc_spec(e2, d2) == edc_spec(e1 ^ e2, Seq::new(d1.len(), |i: int| d1[i] ^ d2[i])),
        edc_spec(0, seq![1u8]) == EDC_GENERATOR,
    decreases d1.len(),
{
    let x = Seq::new(d1.len(), |i: int| d1[i] ^ d2[i]);
    if d1.len() > 0 {
        lemma_edc_linear(e1, e2, d1.drop_last(), d2.drop_last());
        assert(x.drop_last() =~= Seq::new(d1.drop_last().len(), |i: int| d1.drop_last()[i] ^ d2.drop_last()[i]));
        let a = edc_spec(e1, d1.drop_last());
        let b = edc_spec(e2, d2.drop_last());
        assert(x.last() == d1.last() ^ d2.last());
        lemma_edc_byte_linear(a, b, d1.last(), d2.last());
    }
    let one = seq![1u8];
    assert(one.drop_last() =~= Seq::<u8>::empty());
    assert(one.last() == 1u8);
    assert(edc_spec(0, one.drop_last()) == 0);
    assert(edc_byte(0u32, 1u8) == 0x8000_0011u32) by (bit_vector);
    assert(edc_spec(0, one) == edc_byte(edc_spec(0, one.drop_last()), one.last()));
}

/// The 256 byte steps of the EDC register: entry `i` is the register
/// `i << 24` shifted through eight bits.
pub open spec fn edc_table_entries() -> Seq<u32> {
    Seq::new(256, |i: int| edc_shift8((i as u32) << 24u32))
}

/// A table of the 256 byte steps of the EDC register.
pub struct EdcTable {
    table: Vec<u32>,
}

impl EdcTable {
    #[verifier::type_invariant]
    spec fn inv(self) -> bool {
        &&& self.table@.len() == 256
        &&& forall|i: int| 0 <= i < 256 ==> #[trigger] self.table@[i] == edc_shift8((i as u32) << 24u32)
    }

    /// The step of the EDC register for each of the 256 index bytes.
    pub closed spec fn entries(&self) -> Seq<u32> {
        self.table@
    }

    /// Builds the table: entry `i` is the register `i << 24` shifted
    /// through eight bits.
    pub fn new() -> (t: Self)
        ensures
            t.entries() == edc_table_entries(),
    {
        let mut table: Vec<u32> = Vec::new();
        let mut i: u32 = 0;
        while i < 256
            invariant
                i <= 256,
                table@.len() == i,
                forall|k: int| 0 <= k < i ==> #[trigger] table@[k] == edc_shift8((k as u32) << 24u32),
            decreases 256 - i,
        {
            let mut e: u32 = i << 24u32;
            let mut n: u32 = 0;
            while n < 8
                invariant
                    n <= 8,
                    i < 256,
                    n == 0 ==> e == i << 24u32,
                    n == 1 ==> e == edc_shift(i << 24u32),
                    n == 2 ==> e == edc_shift(edc_shift(i << 24u32)),
                    n == 3 ==> e == edc_shift(edc_shift(edc_shift(i << 24u32))),
                    n == 4 ==> e == edc_shift(edc_shift(edc_shift(edc_shift(i << 24u32)))),
                    n == 5 ==> e == edc_shift(edc_shift(edc_shift(edc_shift(edc_shift(i << 24u32))))),
                    n == 6 ==> e == edc_shift(edc_shift(edc_shift(edc_shift(edc_shift(edc_shift(i << 24u32)))))),
                    n == 7 ==> e == edc_shift(edc_shift(edc_shift(edc_shift(edc_shift(edc_shift(edc_shift(i << 24u32))))))),
                    n == 8 ==> e == edc_shift8(i << 24u32),
                decreases 8 - n,
            {
                e = if e & 0x8000_0000u32 != 0 {
                    (e << 1u32) ^ 0x8000_0011u32
                } else {
                    e << 1u32
                };
                n = n + 1;
            }
            table.push(e);
            i = i + 1;
        }
        assert(table@ =~= edc_table_entries());
        EdcTable { table }
    }

    /// Absorbs one byte into the EDC register.
    pub fn step(&self, edc: u32, b: u8) -> (r: u32)
        ensures
            r == edc_byte(edc, b),
    {
        proof {
            use_type_invariant(self);
            lemma_edc_table_step(edc, b);
        }
        let idx: u32 = ((edc >> 24u32) ^ (b as u32)) & 0xFFu32;
        assert(idx < 256) by (bit_vector)
            requires
                idx == ((edc >> 24u32) ^ (b as u32)) & 0xFFu32,
        ;
        assert(self.table@[idx as int] == edc_shift8(idx << 24u32));
        self.table[idx as usize] ^ (edc << 8u32)
    }

    /// The EDC of `data`, starting from the register value `edc`.
    pub fn calc(&self, edc: u32, data: &[u8]) -> (r: u32)
        ensures
            r == edc_spec(edc, data@),
    {
        let mut e = edc;
        let mut i: usize = 0;
        while i < data.len()
            invariant
                i <= data@.len(),
                e == edc_spec(edc, data@.subrange(0, i as int)),
            decreases data@.len() - i,
        {
            proof {
                lemma_edc_push(edc, data@.subrange(0, i as int), data@[i as int]);
                assert(data@.subrange(0, i as int).push(data@[i as int]) =~= data@.subrange(
                    0,
                    i + 1,
                ));
            }
            e = self.step(e, data[i]);
            i = i + 1;
        }
        assert(data@.subrange(0, data@.len() as int) =~= data@);
        e
    }
}

/// Computes the EDC of `data`, starting from the register value `edc`
/// (an initial value of 0 gives the EDC of a frame).
pub fn edc_calc(edc: u32, data: &[u8]) -> (r: u32)
    ensures
        r == edc_spec(edc, data@),
{
    let t = EdcTable::new();
    t.calc(edc, data)
}

/// One clock of the 15-bit scrambler register: feedback x^15 + x^11 + 1.
pub open spec fn lfsr_tick(s: u16) -> u16 {
    ((s << 1u16) | (((s >> 14u16) ^ (s >> 10u16)) & 1u16)) & 0x7FFFu16
}

/// The output bit of the register: its top (15th) bit.
pub open spec fn lfsr_bit(s: u16) -> u16 {
    (s >> 14u16) & 1u16
}

/// The byte produced by eight clocks from register state `s0`, first bit in
/// the most significant position.
pub open spec fn lfsr_byte_out(s0: u16) -> u8 {
    let s1 = lfsr_tick(s0);
    let s2 = lfsr_tick(s1);
    let s3 = lfsr_tick(s2);
    let s4 = lfsr_tick(s3);
    let s5 = lfsr_tick(s4);
    let s6 = lfsr_tick(s5);
    let s7 = lfsr_tick(s6);
    ((lfsr_bit(s0) << 7u16) | (lfsr_bit(s1) << 6u16) | (lfsr_bit(s2) << 5u16) | (lfsr_bit(s3)
        << 4u16) | (lfsr_bit(s4) << 3u16) | (lfsr_bit(s5) << 2u16) | (lfsr_bit(s6) << 1u16)
        | lfsr_bit(s7)) as u8
}

/// The register state after eight clocks.
pub open spec fn lfsr_byte_next(s: u16) -> u16 {
    lfsr_tick(lfsr_tick(lfsr_tick(lfsr_tick(lfsr_tick(lfsr_tick(lfsr_tick(lfsr_tick(s))))))))
}

/// The register state after `n` bytes were produced from `seed`.
pub open spec fn lfsr_state(seed: u16, n: nat) -> u16
    decreases n,
{
    if n == 0 {
        seed & 0x7FFFu16
    } else {
        lfsr_byte_next(lfsr_state(seed, (n - 1) as nat))
    }
}

/// The first `n` bytes of the scrambling stream of `seed`.
pub open spec fn lfsr_stream(seed: u16, n: nat) -> Seq<u8> {
    Seq::new(n, |i: int| lfsr_byte_out(lfsr_state(seed, i as nat)))
}

/// The byte step computed from the top bits of the register equals eight clocks.
proof fn lemma_lfsr_byte(s: u16)
    requires
        s < 0x8000,
    ensures
        ((s >> 7u16) & 0xFFu16) as u8 == lfsr_byte_out(s),
        ((s << 8u16) | (((s >> 7u16) ^ (s >> 3u16)) & 0xFFu16)) & 0x7FFFu16 == lfsr_byte_next(s),
        lfsr_byte_next(s) < 0x8000,
{
    assert(((s >> 7u16) & 0xFFu16) as u8 == lfsr_byte_out(s)) by (bit_vector)
        requires
            s < 0x8000,
    ;
    assert(((s << 8u16) | (((s >> 7u16) ^ (s >> 3u16)) & 0xFFu16)) & 0x7FFFu16 == lfsr_byte_next(
        s,
    )) by (bit_vector)
        requires
            s < 0x8000,
    ;
    assert(lfsr_byte_next(s) < 0x8000) by (bit_vector);
}

/// Every register state is a 15-bit value.
pub proof fn lemma_lfsr_state_bound(seed: u16, n: nat)
    ensures
        lfsr_state(seed, n) < 0x8000,
    decreases n,
{
    if n == 0 {
        assert(seed & 0x7FFFu16 < 0x8000) by (bit_vector);
    } else {
        lemma_lfsr_state_bound(seed, (n - 1) as nat);
        lemma_lfsr_byte(lfsr_state(seed, (n - 1) as nat));
    }
}

/// The ECMA-267 scrambling stream generator.
pub struct Lfsr {
    value: u16,
}

impl View for Lfsr {
    type V = u16;

    closed spec fn view(&self) -> u16 {
        self.value
    }
}

impl Lfsr {
    #[verifier::type_invariant]
    spec fn inv(self) -> bool {
        self.value < 0x8000
    }

    /// Starts the register from `seed` (its low 15 bits).
    pub fn new(seed: u16) -> (l: Self)
        ensures
            l@ == lfsr_state(seed, 0),
    {
        let v = seed & 0x7FFFu16;
        assert(v < 0x8000) by (bit_vector)
            requires
                v == seed & 0x7FFFu16,
        ;
        Lfsr { value: v }
    }

    /// Produces the next byte of the stream.
    pub fn next_byte(&mut self) -> (b: u8)
        ensures
            b == lfsr_byte_out(old(self)@),
            final(self)@ == lfsr_byte_next(old(self)@),
    {
        proof {
            use_type_invariant(&*self);
            lemma_lfsr_byte(self.value);
        }
        let s = self.value;
        let out = ((s >> 7u16) & 0xFFu16) as u8;
        self.value = ((s << 8u16) | (((s >> 7u16) ^ (s >> 3u16)) & 0xFFu16)) & 0x7FFFu16;
        out
    }
}

/// The first `n` bytes of the scrambling stream of `seed`.
pub fn lfsr_fill(seed: u16, n: usize) -> (v: Vec<u8>)
    ensures
        v@ == lfsr_stream(seed, n as nat),
{
    let mut l = Lfsr::new(seed);
    let mut v: Vec<u8> = Vec::new();
    let mut i: usize = 0;
    while i < n
        invariant
            i <= n,
            l@ == lfsr_state(seed, i as nat),
            v@ =~= lfsr_stream(seed, i as nat),
        decreases n - i,
    {
        let b = l.next_byte();
        v.push(b);
        i = i + 1;
    }
    v
}

} // verus!
