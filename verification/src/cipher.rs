//! Encryption pipeline: a symmetric block cipher in byte-wise feedback
//! mode, applied in place with no size change. Each processed byte shifts
//! one ciphertext byte into the 16-byte feedback register, so the register
//! advances by one full block's worth per 16 bytes of stream, and the two
//! directions of a connection keep independent registers.

use vstd::prelude::*;

verus! {

/// What the aes crate's 128-bit block encryption produces for a key and a
/// block: a pure function of the two, 16 bytes each way.
pub uninterp spec fn aes_block_of(key: Seq<u8>, block: Seq<u8>) -> Seq<u8>;

/// Relies on aes::Aes128 (KeyInit::new, then encrypt_block): block
/// encryption is a function of key and block alone and fills 16 bytes.
#[verifier::external_body]
fn aes128_encrypt_block(key: &Vec<u8>, block: &Vec<u8>) -> (r: Vec<u8>)
    requires
        key@.len() == 16,
        block@.len() == 16,
    ensures
        r@ == aes_block_of(key@, block@),
        r@.len() == 16,
{
    let k = aes::Block::try_from(key.as_slice()).expect("key length is checked");
    let cipher = <aes::Aes128 as aes::cipher::KeyInit>::new(&k);
    let mut b = aes::Block::try_from(block.as_slice()).expect("block length is checked");
    aes::cipher::BlockCipherEncrypt::encrypt_block(&cipher, &mut b);
    b.to_vec()
}

/// The ciphertext that byte-wise feedback encryption produces from `p`
/// under `key`, starting from feedback register `reg`.
pub open spec fn cfb8_encrypt(key: Seq<u8>, reg: Seq<u8>, p: Seq<u8>) -> Seq<u8>
    decreases p.len(),
{
    if p.len() == 0 {
        Seq::empty()
    } else {
        let c = p[0] ^ aes_block_of(key, reg)[0];
        seq![c] + cfb8_encrypt(key, reg.skip(1) + seq![c], p.skip(1))
    }
}

/// The feedback register left behind by encrypting `p`.
pub open spec fn cfb8_reg_after_encrypt(key: Seq<u8>, reg: Seq<u8>, p: Seq<u8>) -> Seq<u8>
    decreases p.len(),
{
    if p.len() == 0 {
        reg
    } else {
        let c = p[0] ^ aes_block_of(key, reg)[0];
        cfb8_reg_after_encrypt(key, reg.skip(1) + seq![c], p.skip(1))
    }
}

/// The plaintext that byte-wise feedback decryption recovers from `c`
/// under `key`, starting from feedback register `reg`. Both directions
/// shift the ciphertext byte into the register, which is what makes the
/// two transforms symmetric.
pub open spec fn cfb8_decrypt(key: Seq<u8>, reg: Seq<u8>, c: Seq<u8>) -> Seq<u8>
    decreases c.len(),
{
    if c.len() == 0 {
        Seq::empty()
    } else {
        let p = c[0] ^ aes_block_of(key, reg)[0];
        seq![p] + cfb8_decrypt(key, reg.skip(1) + seq![c[0]], c.skip(1))
    }
}

/// The feedback register left behind by decrypting `c`.
pub open spec fn cfb8_reg_after_decrypt(key: Seq<u8>, reg: Seq<u8>, c: Seq<u8>) -> Seq<u8>
    decreases c.len(),
{
    if c.len() == 0 {
        reg
    } else {
        cfb8_reg_after_decrypt(key, reg.skip(1) + seq![c[0]], c.skip(1))
    }
}

/// Encryption never changes the byte count.
pub proof fn lemma_cfb8_encrypt_len(key: Seq<u8>, reg: Seq<u8>, p: Seq<u8>)
    ensures
        cfb8_encrypt(key, reg, p).len() == p.len(),
    decreases p.len(),
{
    if p.len() != 0 {
        let c = p[0] ^ aes_block_of(key, reg)[0];
        lemma_cfb8_encrypt_len(key, reg.skip(1) + seq![c], p.skip(1));
    }
}

/// Decryption never changes the byte count.
pub proof fn lemma_cfb8_decrypt_len(key: Seq<u8>, reg: Seq<u8>, c: Seq<u8>)
    ensures
        cfb8_decrypt(key, reg, c).len() == c.len(),
    decreases c.len(),
{
    if c.len() != 0 {
        lemma_cfb8_decrypt_len(key, reg.skip(1) + seq![c[0]], c.skip(1));
    }
}

/// Cipher symmetry: decrypting what was encrypted under the same key and
/// the same fresh register returns the original bytes unchanged, for every
/// buffer length. The two runs stay in step because each feeds the same
/// ciphertext bytes into its register.
pub proof fn lemma_cfb8_roundtrip(key: Seq<u8>, reg: Seq<u8>, p: Seq<u8>)
    ensures
        cfb8_decrypt(key, reg, cfb8_encrypt(key, reg, p)) == p,
        cfb8_reg_after_decrypt(key, reg, cfb8_encrypt(key, reg, p))
            == cfb8_reg_after_encrypt(key, reg, p),
    decreases p.len(),
{
    if p.len() == 0 {
        assert(cfb8_decrypt(key, reg, cfb8_encrypt(key, reg, p)) =~= p);
    } else {
        let a: u8 = p[0];
        let ks: u8 = aes_block_of(key, reg)[0];
        let c = a ^ ks;
        assert((a ^ ks) ^ ks == a) by (bit_vector);
        let reg2 = reg.skip(1) + seq![c];
        let ctail = cfb8_encrypt(key, reg2, p.skip(1));
        let cs = cfb8_encrypt(key, reg, p);
        assert(cs == seq![c] + ctail);
        assert(cs[0] == c);
        assert(cs.skip(1) =~= ctail);
        lemma_cfb8_roundtrip(key, reg2, p.skip(1));
        assert(cfb8_decrypt(key, reg, cs) == seq![p[0]] + cfb8_decrypt(key, reg2, ctail));
        assert(seq![p[0]] + p.skip(1) =~= p);
    }
}

/// One direction of a connection's cipher: the key and the running
/// feedback register, both one block wide.
pub struct Cfb8Cipher {
    key: Vec<u8>,
    register: Vec<u8>,
}

impl Cfb8Cipher {
    /// The cipher's key.
    pub closed spec fn key_view(&self) -> Seq<u8> {
        self.key@
    }

    /// The current feedback register.
    pub closed spec fn reg_view(&self) -> Seq<u8> {
        self.register@
    }

    /// Well-formedness: key and register are one block each.
    pub open spec fn wf(&self) -> bool {
        self.key_view().len() == 16 && self.reg_view().len() == 16
    }

    /// A cipher over `key` with an explicit initial register.
    pub fn new_with_iv(key: Vec<u8>, iv: Vec<u8>) -> (c: Self)
        requires
            key@.len() == 16,
            iv@.len() == 16,
        ensures
            c.wf(),
            c.key_view() == key@,
            c.reg_view() == iv@,
    {
        Cfb8Cipher { key, register: iv }
    }

    /// A cipher whose register starts as the key itself, as the origin
    /// protocol initializes both directions from the shared secret.
    pub fn new(key: Vec<u8>) -> (c: Self)
        requires
            key@.len() == 16,
        ensures
            c.wf(),
            c.key_view() == key@,
            c.reg_view() == key@,
    {
        let register = key.clone();
        Cfb8Cipher { key, register }
    }

    /// Encrypt a buffer in place; the register advances across calls.
    pub fn encrypt(&mut self, data: &mut Vec<u8>)
        requires
            old(self).wf(),
        ensures
            final(self).wf(),
            final(self).key_view() == old(self).key_view(),
            final(data)@ == cfb8_encrypt(old(self).key_view(), old(self).reg_view(), old(data)@),
            final(self).reg_view() == cfb8_reg_after_encrypt(
                old(self).key_view(),
                old(self).reg_view(),
                old(data)@,
            ),
    {
        let ghost key0 = self.key@;
        let ghost reg0 = self.register@;
        let ghost d0 = data@;
        let mut i: usize = 0;
        proof {
            assert(d0.skip(0) =~= d0);
            assert(data@.take(0) + cfb8_encrypt(key0, reg0, d0.skip(0))
                =~= cfb8_encrypt(key0, reg0, d0));
        }
        while i < data.len()
            invariant
                self.wf(),
                self.key@ == key0,
                data@.len() == d0.len(),
                0 <= i <= d0.len(),
                data@.skip(i as int) == d0.skip(i as int),
                cfb8_encrypt(key0, reg0, d0) == data@.take(i as int)
                    + cfb8_encrypt(key0, self.register@, d0.skip(i as int)),
                cfb8_reg_after_encrypt(key0, reg0, d0)
                    == cfb8_reg_after_encrypt(key0, self.register@, d0.skip(i as int)),
            decreases data@.len() - i,
        {
            let ghost reg_i = self.register@;
            let ks = aes128_encrypt_block(&self.key, &self.register);
            let c = data[i] ^ ks[0];
            proof {
                assert(d0.skip(i as int)[0] == data@[i as int]);
                assert(c == d0.skip(i as int)[0] ^ aes_block_of(key0, reg_i)[0]);
            }
            data.set(i, c);
            let ghost reg_next = reg_i.skip(1) + seq![c];
            self.register.remove(0);
            self.register.push(c);
            proof {
                assert(self.register@ =~= reg_next);
                assert(d0.skip(i as int).skip(1) =~= d0.skip(i + 1));
                assert(cfb8_encrypt(key0, reg_i, d0.skip(i as int))
                    == seq![c] + cfb8_encrypt(key0, reg_next, d0.skip(i + 1)));
                assert(data@.take(i + 1) =~= data@.take(i as int).push(c));
                assert(data@.take(i as int) + (seq![c] + cfb8_encrypt(key0, reg_next, d0.skip(i + 1)))
                    =~= data@.take(i + 1) + cfb8_encrypt(key0, reg_next, d0.skip(i + 1)));
                assert(data@.skip(i + 1) =~= d0.skip(i + 1));
            }
            i = i + 1;
        }
        proof {
            assert(d0.skip(d0.len() as int) =~= Seq::<u8>::empty());
            assert(data@.take(data@.len() as int) =~= data@);
        }
    }

    /// Decrypt a buffer in place; the register advances across calls.
    pub fn decrypt(&mut self, data: &mut Vec<u8>)
        requires
            old(self).wf(),
        ensures
            final(self).wf(),
            final(self).key_view() == old(self).key_view(),
            final(data)@ == cfb8_decrypt(old(self).key_view(), old(self).reg_view(), old(data)@),
            final(self).reg_view() == cfb8_reg_after_decrypt(
                old(self).key_view(),
                old(self).reg_view(),
                old(data)@,
            ),
    {
        let ghost key0 = self.key@;
        let ghost reg0 = self.register@;
        let ghost d0 = data@;
        let mut i: usize = 0;
        proof {
            assert(d0.skip(0) =~= d0);
            assert(data@.take(0) + cfb8_decrypt(key0, reg0, d0.skip(0))
                =~= cfb8_decrypt(key0, reg0, d0));
        }
        while i < data.len()
            invariant
                self.wf(),
                self.key@ == key0,
                data@.len() == d0.len(),
                0 <= i <= d0.len(),
                data@.skip(i as int) == d0.skip(i as int),
                cfb8_decrypt(key0, reg0, d0) == data@.take(i as int)
                    + cfb8_decrypt(key0, self.register@, d0.skip(i as int)),
                cfb8_reg_after_decrypt(key0, reg0, d0)
                    == cfb8_reg_after_decrypt(key0, self.register@, d0.skip(i as int)),
            decreases data@.len() - i,
        {
            let ghost reg_i = self.register@;
            let ks = aes128_encrypt_block(&self.key, &self.register);
            let cin = data[i];
            let p = cin ^ ks[0];
            proof {
                assert(d0.skip(i as int)[0] == data@[i as int]);
                assert(p == d0.skip(i as int)[0] ^ aes_block_of(key0, reg_i)[0]);
            }
            data.set(i, p);
            let ghost reg_next = reg_i.skip(1) + seq![cin];
            self.register.remove(0);
            self.register.push(cin);
            proof {
                assert(self.register@ =~= reg_next);
                assert(d0.skip(i as int).skip(1) =~= d0.skip(i + 1));
                assert(cfb8_decrypt(key0, reg_i, d0.skip(i as int))
                    == seq![p] + cfb8_decrypt(key0, reg_next, d0.skip(i + 1)));
                assert(data@.take(i + 1) =~= data@.take(i as int).push(p));
                assert(data@.take(i as int) + (seq![p] + cfb8_decrypt(key0, reg_next, d0.skip(i + 1)))
                    =~= data@.take(i + 1) + cfb8_decrypt(key0, reg_next, d0.skip(i + 1)));
                assert(data@.skip(i + 1) =~= d0.skip(i + 1));
            }
            i = i + 1;
        }
        proof {
            assert(d0.skip(d0.len() as int) =~= Seq::<u8>::empty());
            assert(data@.take(data@.len() as int) =~= data@);
        }
    }
}

} // verus!
