use vstd::prelude::*;

verus! {

/// Abstract state of an RC4 generator: the permutation and the two indices.
pub struct Rc4View {
    pub s: Seq<u8>,
    pub i: u8,
    pub j: u8,
}

/// The identity permutation of the 256 byte values.
pub open spec fn identity_perm() -> Seq<u8> {
    Seq::new(256, |k: int| k as u8)
}

/// Swaps the entries at `a` and `b`.
pub open spec fn swap_seq(s: Seq<u8>, a: int, b: int) -> Seq<u8> {
    s.update(a, s[b]).update(b, s[a])
}

/// Permutation and `j` after the first `n` rounds of the key schedule.
pub open spec fn ksa_rounds(key: Seq<u8>, n: nat) -> (Seq<u8>, u8)
    decreases n,
{
    if n == 0 {
        (identity_perm(), 0u8)
    } else {
        let (s, j) = ksa_rounds(key, (n - 1) as nat);
        let i = n - 1;
        let j2 = j.wrapping_add(s[i]).wrapping_add(key[i % (key.len() as int)]);
        (swap_seq(s, i, j2 as int), j2)
    }
}

/// State of a generator freshly keyed with `key`.
pub open spec fn rc4_init(key: Seq<u8>) -> Rc4View {
    Rc4View { s: ksa_rounds(key, 256).0, i: 0, j: 0 }
}

/// One step of the output generator: the next state and the byte it yields.
pub open spec fn rc4_step(st: Rc4View) -> (Rc4View, u8) {
    let i = st.i.wrapping_add(1);
    let j = st.j.wrapping_add(st.s[i as int]);
    let si = st.s[i as int];
    let sj = st.s[j as int];
    let s2 = swap_seq(st.s, i as int, j as int);
    (Rc4View { s: s2, i, j }, s2[si.wrapping_add(sj) as int])
}

/// State after `n` output bytes.
pub open spec fn rc4_advance(st: Rc4View, n: nat) -> Rc4View
    decreases n,
{
    if n == 0 {
        st
    } else {
        rc4_step(rc4_advance(st, (n - 1) as nat)).0
    }
}

/// The first `n` output bytes.
pub open spec fn rc4_keystream(st: Rc4View, n: nat) -> Seq<u8>
    decreases n,
{
    if n == 0 {
        Seq::empty()
    } else {
        rc4_keystream(st, (n - 1) as nat).push(rc4_step(rc4_advance(st, (n - 1) as nat)).1)
    }
}

/// Byte-wise xor of `data` with the first `data.len()` bytes of `ks`.
pub open spec fn xor_seq(data: Seq<u8>, ks: Seq<u8>) -> Seq<u8> {
    Seq::new(data.len(), |k: int| data[k] ^ ks[k])
}

/// What RC4 keyed with `key` turns `data` into.
pub open spec fn rc4_apply(key: Seq<u8>, data: Seq<u8>) -> Seq<u8> {
    xor_seq(data, rc4_keystream(rc4_init(key), data.len()))
}

/// The keystream of a freshly keyed generator has as many bytes as asked for.
pub proof fn lemma_keystream_len(st: Rc4View, n: nat)
    ensures
        rc4_keystream(st, n).len() == n,
    decreases n,
{
    if n > 0 {
        lemma_keystream_len(st, (n - 1) as nat);
    }
}

/// RC4 is its own inverse: transforming twice with the same key gives the data back.
pub proof fn lemma_rc4_involution(key: Seq<u8>, data: Seq<u8>)
    ensures
        rc4_apply(key, rc4_apply(key, data)) == data,
{
    let ks = rc4_keystream(rc4_init(key), data.len());
    lemma_keystream_len(rc4_init(key), data.len());
    assert(rc4_apply(key, data).len() == data.len());
    crate::auth::encryption::lemma_xor_seq_involution(data, ks);
}

/// `s` holds each of the 256 byte values exactly once.
pub open spec fn is_byte_permutation(s: Seq<u8>) -> bool {
    &&& s.len() == 256
    &&& s.no_duplicates()
    &&& forall|v: u8| #[trigger] s.contains(v)
}

proof fn lemma_identity_is_permutation()
    ensures
        is_byte_permutation(identity_perm()),
{
    let s = identity_perm();
    assert forall|v: u8| #[trigger] s.contains(v) by {
        assert(s[v as int] == v);
    }
}

proof fn lemma_swap_keeps_permutation(s: Seq<u8>, a: int, b: int)
    requires
        is_byte_permutation(s),
        0 <= a < 256,
        0 <= b < 256,
    ensures
        is_byte_permutation(swap_seq(s, a, b)),
{
    let t = swap_seq(s, a, b);
    assert forall|x: int, y: int| 0 <= x < t.len() && 0 <= y < t.len() && x != y implies t[x] != t[y] by {
        let sx = if x == b { a } else if x == a { b } else { x };
        let sy = if y == b { a } else if y == a { b } else { y };
        assert(t[x] == s[sx]);
        assert(t[y] == s[sy]);
    }
    assert forall|v: u8| #[trigger] t.contains(v) by {
        assert(s.contains(v));
        let k = choose|k: int| 0 <= k < s.len() && s[k] == v;
        let w = if k == a { b } else if k == b { a } else { k };
        assert(t[w] == v);
    }
}

proof fn lemma_ksa_rounds_permutation(key: Seq<u8>, n: nat)
    requires
        n <= 256,
    ensures
        is_byte_permutation(ksa_rounds(key, n).0),
    decreases n,
{
    if n == 0 {
        lemma_identity_is_permutation();
    } else {
        lemma_ksa_rounds_permutation(key, (n - 1) as nat);
        let (s, j) = ksa_rounds(key, (n - 1) as nat);
        let i = n - 1;
        let j2 = j.wrapping_add(s[i]).wrapping_add(key[i % (key.len() as int)]);
        lemma_swap_keeps_permutation(s, i, j2 as int);
    }
}

/// The key schedule leaves a permutation of the 256 byte values, and every
/// output step keeps one: each generator state keyed from any key holds each
/// byte value exactly once.
pub proof fn lemma_generator_permutation(key: Seq<u8>, n: nat)
    ensures
        is_byte_permutation(rc4_init(key).s),
        is_byte_permutation(rc4_advance(rc4_init(key), n).s),
    decreases n,
{
    lemma_ksa_rounds_permutation(key, 256);
    if n > 0 {
        lemma_generator_permutation(key, (n - 1) as nat);
        let st = rc4_advance(rc4_init(key), (n - 1) as nat);
        let i = st.i.wrapping_add(1);
        let j = st.j.wrapping_add(st.s[i as int]);
        lemma_swap_keeps_permutation(st.s, i as int, j as int);
    }
}

/// RC4 stream cipher; encryption and decryption are the same operation.
pub struct Rc4 {
    s: [u8; 256],
    i: u8,
    j: u8,
}

impl View for Rc4 {
    type V = Rc4View;

    closed spec fn view(&self) -> Rc4View {
        Rc4View { s: self.s@, i: self.i, j: self.j }
    }
}

impl Rc4 {
    /// Every state reached from a key has a permutation of 256 entries.
    pub closed spec fn wf(&self) -> bool {
        self.s@.len() == 256
    }

    /// Keys a new generator. The key must not be empty.
    pub fn new(key: &[u8]) -> (r: Self)
        requires
            key@.len() > 0,
        ensures
            r@ == rc4_init(key@),
            r.wf(),
    {
        let mut s = [0u8; 256];
        let mut i: usize = 0;
        while i < 256
            invariant
                i <= 256,
                s@.len() == 256,
                forall|k: int| 0 <= k < i ==> s@[k] == k as u8,
            decreases 256 - i,
        {
            s[i] = i as u8;
            i = i + 1;
        }
        assert(s@ =~= identity_perm());
        let mut j: u8 = 0;
        let mut i: usize = 0;
        while i < 256
            invariant
                i <= 256,
                key@.len() > 0,
                s@.len() == 256,
                (s@, j) == ksa_rounds(key@, i as nat),
            decreases 256 - i,
        {
            j = j.wrapping_add(s[i]).wrapping_add(key[i % key.len()]);
            let a = s[i];
            let b = s[j as usize];
            s[i] = b;
            s[j as usize] = a;
            i = i + 1;
            assert(s@ =~= ksa_rounds(key@, i as nat).0);
        }
        Rc4 { s, i: 0, j: 0 }
    }

    fn next_byte(&mut self) -> (b: u8)
        requires
            old(self).wf(),
        ensures
            final(self).wf(),
            (final(self)@, b) == rc4_step(old(self)@),
    {
        self.i = self.i.wrapping_add(1);
        self.j = self.j.wrapping_add(self.s[self.i as usize]);
        let si = self.s[self.i as usize];
        let sj = self.s[self.j as usize];
        self.s[self.i as usize] = sj;
        self.s[self.j as usize] = si;
        let t = si.wrapping_add(sj);
        let r = self.s[t as usize];
        assert(self.s@ =~= swap_seq(old(self)@.s, self.i as int, self.j as int));
        r
    }

    /// Xors `data` in place with the next `data.len()` keystream bytes.
    pub fn process(&mut self, data: &mut [u8])
        requires
            old(self).wf(),
        ensures
            final(self).wf(),
            final(data)@ == xor_seq(old(data)@, rc4_keystream(old(self)@, old(data)@.len())),
            final(self)@ == rc4_advance(old(self)@, old(data)@.len()),
    {
        let ghost st0 = self@;
        let ghost d0 = data@;
        let n = data.len();
        let mut k: usize = 0;
        while k < n
            invariant
                k <= n,
                n == data@.len(),
                d0.len() == n,
                self.wf(),
                self@ == rc4_advance(st0, k as nat),
                rc4_keystream(st0, k as nat).len() == k,
                forall|m: int| 0 <= m < k ==> data@[m] == d0[m] ^ rc4_keystream(st0, k as nat)[m],
                forall|m: int| k <= m < n ==> data@[m] == d0[m],
            decreases n - k,
        {
            let b = self.next_byte();
            data[k] = data[k] ^ b;
            k = k + 1;
        }
        assert(data@ =~= xor_seq(d0, rc4_keystream(st0, n as nat)));
    }

    /// Consumes the generator and returns `data` xored with its keystream.
    pub fn process_vec(self, data: Vec<u8>) -> (out: Vec<u8>)
        requires
            self.wf(),
        ensures
            out@ == xor_seq(data@, rc4_keystream(self@, data@.len())),
    {
        let mut gen = self;
        let mut data = data;
        gen.process(data.as_mut_slice());
        data
    }
}

} // verus!
