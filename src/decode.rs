//! Holds back an unfinished UTF-8 sequence at the end of a pipe read, so that
//! a character split between two reads reaches the terminal whole.
use vstd::prelude::*;

verus! {

pub open spec fn is_continuation(b: u8) -> bool {
    0x80 <= b && b < 0xC0
}

/// How many bytes the UTF-8 sequence that `lead` opens takes.
pub open spec fn sequence_len(lead: u8) -> nat {
    if lead >= 0xF0 {
        4
    } else if lead >= 0xE0 {
        3
    } else if lead >= 0xC0 {
        2
    } else {
        1
    }
}

/// Looking back from the `k`-th last byte of `b` over continuation bytes:
/// the length of the sequence left unfinished at the end of `b`, or 0.
pub open spec fn unfinished_from(b: Seq<u8>, k: nat) -> nat
    decreases 4 - k,
{
    if k == 0 || k > 3 || k > b.len() {
        0
    } else {
        let x = b[b.len() - k];
        if is_continuation(x) {
            unfinished_from(b, k + 1)
        } else if sequence_len(x) > k {
            k
        } else {
            0
        }
    }
}

/// Length of the unfinished UTF-8 sequence at the end of `b` (at most 3).
pub open spec fn unfinished_tail(b: Seq<u8>) -> nat {
    unfinished_from(b, 1)
}

/// `c` is one well-formed UTF-8 encoded character: no overlong form, no
/// surrogate, nothing above U+10FFFF.
pub open spec fn well_formed_char(c: Seq<u8>) -> bool {
    &&& c.len() >= 1
    &&& {
        let x = c[0];
        if x < 0x80 {
            c.len() == 1
        } else if 0xC2 <= x && x <= 0xDF {
            c.len() == 2 && is_continuation(c[1])
        } else if 0xE0 <= x && x <= 0xEF {
            &&& c.len() == 3
            &&& is_continuation(c[1]) && is_continuation(c[2])
            &&& x == 0xE0 ==> c[1] >= 0xA0
            &&& x == 0xED ==> c[1] < 0xA0
        } else if 0xF0 <= x && x <= 0xF4 {
            &&& c.len() == 4
            &&& is_continuation(c[1]) && is_continuation(c[2]) && is_continuation(c[3])
            &&& x == 0xF0 ==> c[1] >= 0x90
            &&& x == 0xF4 ==> c[1] < 0x90
        } else {
            false
        }
    }
}

/// `b` is valid UTF-8: a run of well-formed characters.
pub open spec fn valid_utf8(b: Seq<u8>) -> bool
    decreases b.len(),
{
    if b.len() == 0 {
        true
    } else {
        let n = sequence_len(b[0]);
        if 1 <= n && n <= b.len() {
            well_formed_char(b.take(n as int)) && valid_utf8(b.skip(n as int))
        } else {
            false
        }
    }
}

proof fn lemma_char_facts(c: Seq<u8>)
    requires
        well_formed_char(c),
    ensures
        !is_continuation(c[0]),
        sequence_len(c[0]) == c.len(),
        2 <= c.len() <= 4 ==> c[0] >= 0xC0,
        forall|i: int| 1 <= i < c.len() ==> is_continuation(#[trigger] c[i]),
{
}

proof fn lemma_prepend_char(c: Seq<u8>, x: Seq<u8>)
    requires
        well_formed_char(c),
        valid_utf8(x),
    ensures
        valid_utf8(c + x),
{
    lemma_char_facts(c);
    let b = c + x;
    assert(b[0] == c[0]);
    assert(b.take(c.len() as int) =~= c);
    assert(b.skip(c.len() as int) =~= x);
}

proof fn lemma_whole_char_from(c: Seq<u8>, k: nat)
    requires
        well_formed_char(c),
        1 <= k <= c.len(),
    ensures
        unfinished_from(c, k) == 0,
    decreases c.len() - k,
{
    lemma_char_facts(c);
    if k <= 3 && k < c.len() {
        assert(is_continuation(c[c.len() - k]));
        lemma_whole_char_from(c, k + 1);
    }
}

proof fn lemma_partial_char_from(b: Seq<u8>, n: nat, k: nat)
    requires
        1 <= k <= b.len(),
        b.len() < n,
        n <= 4,
        sequence_len(b[0]) == n,
        !is_continuation(b[0]),
        forall|i: int| 1 <= i < b.len() ==> is_continuation(#[trigger] b[i]),
    ensures
        unfinished_from(b, k) == b.len(),
    decreases b.len() - k,
{
    if k < b.len() {
        assert(is_continuation(b[b.len() - k]));
        lemma_partial_char_from(b, n, k + 1);
    }
}

proof fn lemma_tail_of_suffix(a: Seq<u8>, b: Seq<u8>, k: nat)
    requires
        1 <= k <= b.len(),
        !is_continuation(b[0]),
    ensures
        unfinished_from(a + b, k) == unfinished_from(b, k),
    decreases 4 - k,
{
    if k <= 3 {
        let ab = a + b;
        assert(ab[ab.len() - k] == b[b.len() - k]);
        if is_continuation(b[b.len() - k]) {
            assert(b.len() - k != 0);
            lemma_tail_of_suffix(a, b, k + 1);
        }
    }
}

proof fn lemma_prefix_ready_valid(s: Seq<u8>, j: nat)
    requires
        valid_utf8(s),
        j <= s.len(),
    ensures
        ({
            let all = s.take(j as int);
            valid_utf8(all.take(all.len() - unfinished_tail(all)))
        }),
    decreases s.len(),
{
    let all = s.take(j as int);
    lemma_unfinished_bound(all, 1);
    if j == 0 {
        assert(all.take(all.len() - unfinished_tail(all)) =~= Seq::<u8>::empty());
    } else {
        let n = sequence_len(s[0]);
        let c = s.take(n as int);
        let rest = s.skip(n as int);
        lemma_char_facts(c);
        assert(c[0] == s[0]);
        if j < n {
            assert forall|i: int| 1 <= i < all.len() implies is_continuation(#[trigger] all[i]) by {
                assert(all[i] == c[i]);
            }
            lemma_partial_char_from(all, n, 1);
            assert(all.take(0) =~= Seq::<u8>::empty());
        } else if j == n {
            assert(all =~= c);
            lemma_whole_char_from(c, 1);
            assert(all.take(all.len() as int) =~= c);
            lemma_prepend_char(c, Seq::<u8>::empty());
            assert(c + Seq::<u8>::empty() =~= c);
        } else {
            let tail = rest.take(j - n);
            lemma_prefix_ready_valid(rest, (j - n) as nat);
            assert(all =~= c + tail);
            assert(valid_utf8(rest));
            assert(rest.len() > 0);
            let n2 = sequence_len(rest[0]);
            assert(1 <= n2 <= rest.len() && well_formed_char(rest.take(n2 as int)));
            lemma_char_facts(rest.take(n2 as int));
            assert(rest.take(n2 as int)[0] == rest[0]);
            assert(tail[0] == rest[0]);
            lemma_tail_of_suffix(c, tail, 1);
            lemma_unfinished_bound(tail, 1);
            let t = unfinished_tail(tail);
            assert(all.take(all.len() - t) =~= c + tail.take(tail.len() - t));
            lemma_prepend_char(c, tail.take(tail.len() - t));
        }
    }
}

/// When what is held back together with the new bytes begins a valid UTF-8
/// stream, `push` hands out valid UTF-8, whole characters only: decoding it
/// changes nothing, and a character split between reads is handed out once
/// its last byte has come.
pub proof fn lemma_push_hands_out_whole_characters(pending: Seq<u8>, chunk: Seq<u8>, later: Seq<u8>)
    requires
        valid_utf8(pending + chunk + later),
    ensures
        ({
            let all = pending + chunk;
            valid_utf8(all.take(all.len() - unfinished_tail(all)))
        }),
{
    let s = pending + chunk + later;
    let all = pending + chunk;
    assert(s.take(all.len() as int) =~= all);
    lemma_prefix_ready_valid(s, all.len());
}

proof fn lemma_unfinished_bound(b: Seq<u8>, k: nat)
    ensures
        unfinished_from(b, k) <= b.len(),
        unfinished_from(b, k) <= 3,
    decreases 4 - k,
{
    if !(k == 0 || k > 3 || k > b.len()) && is_continuation(b[b.len() - k]) {
        lemma_unfinished_bound(b, k + 1);
    }
}

fn unfinished_tail_len(b: &Vec<u8>) -> (t: usize)
    ensures
        t == unfinished_tail(b@),
        t <= b@.len(),
{
    proof {
        lemma_unfinished_bound(b@, 1);
    }
    let n = b.len();
    let mut k: usize = 1;
    while k <= 3 && k <= n
        invariant
            1 <= k <= 4,
            n == b@.len(),
            unfinished_from(b@, 1) == unfinished_from(b@, k as nat),
            unfinished_from(b@, 1) <= n,
        decreases 4 - k,
    {
        let x = b[n - k];
        if 0x80 <= x && x < 0xC0 {
            k = k + 1;
        } else {
            let need: usize = if x >= 0xF0 {
                4
            } else if x >= 0xE0 {
                3
            } else if x >= 0xC0 {
                2
            } else {
                1
            };
            return if need > k { k } else { 0 };
        }
    }
    0
}

/// Bytes read from a pipe on their way to the terminal, with the unfinished
/// UTF-8 sequence that ended the last read held back.
pub struct InputDecoder {
    pending: Vec<u8>,
}

impl InputDecoder {
    pub closed spec fn pending(&self) -> Seq<u8> {
        self.pending@
    }

    pub fn new() -> (r: Self)
        ensures
            r.pending() == Seq::<u8>::empty(),
    {
        InputDecoder { pending: Vec::new() }
    }

    /// Takes the bytes of one read; returns what is ready to be decoded: the
    /// held-back bytes and the new ones, less a trailing unfinished sequence,
    /// which is held back in turn.
    pub fn push(&mut self, chunk: &[u8]) -> (ready: Vec<u8>)
        ensures
            ({
                let all = old(self).pending() + chunk@;
                let t = unfinished_tail(all);
                &&& ready@ == all.take(all.len() - t)
                &&& final(self).pending() == all.skip(all.len() - t)
            }),
    {
        let mut all: Vec<u8> = Vec::new();
        let mut i: usize = 0;
        while i < self.pending.len()
            invariant
                i <= self.pending@.len(),
                all@ == self.pending@.take(i as int),
            decreases self.pending@.len() - i,
        {
            all.push(self.pending[i]);
            i = i + 1;
            assert(all@ =~= self.pending@.take(i as int));
        }
        assert(self.pending@.take(self.pending@.len() as int) =~= self.pending@);
        let mut j: usize = 0;
        while j < chunk.len()
            invariant
                j <= chunk@.len(),
                all@ == self.pending@ + chunk@.take(j as int),
            decreases chunk@.len() - j,
        {
            all.push(chunk[j]);
            j = j + 1;
            assert(all@ =~= self.pending@ + chunk@.take(j as int));
        }
        assert(chunk@.take(chunk@.len() as int) =~= chunk@);
        let t = unfinished_tail_len(&all);
        let cut = all.len() - t;
        let mut ready: Vec<u8> = Vec::new();
        let mut rest: Vec<u8> = Vec::new();
        let mut k: usize = 0;
        while k < all.len()
            invariant
                cut <= all@.len(),
                k <= all@.len(),
                k <= cut ==> ready@ == all@.take(k as int) && rest@ == Seq::<u8>::empty(),
                k > cut ==> ready@ == all@.take(cut as int) && rest@ == all@.subrange(cut as int, k as int),
            decreases all@.len() - k,
        {
            if k < cut {
                ready.push(all[k]);
            } else {
                rest.push(all[k]);
            }
            k = k + 1;
            assert(k <= cut ==> ready@ =~= all@.take(k as int));
            assert(k > cut ==> rest@ =~= all@.subrange(cut as int, k as int));
        }
        assert(rest@ =~= all@.skip(cut as int));
        self.pending = rest;
        ready
    }

    /// Hands out what is held back, when the stream has ended.
    pub fn finish(&mut self) -> (rest: Vec<u8>)
        ensures
            rest@ == old(self).pending(),
            final(self).pending() == Seq::<u8>::empty(),
    {
        let rest = self.pending.clone();
        self.pending = Vec::new();
        rest
    }
}

/// The bytes handed out by `push` over the reads of `chunks`, starting with
/// `pending` held back, and what is held back at the end.
pub open spec fn decode_run(pending: Seq<u8>, chunks: Seq<Seq<u8>>) -> (Seq<u8>, Seq<u8>)
    decreases chunks.len(),
{
    if chunks.len() == 0 {
        (Seq::empty(), pending)
    } else {
        let (ready, held) = decode_run(pending, chunks.drop_last());
        let all = held + chunks.last();
        let t = unfinished_tail(all);
        (ready + all.take(all.len() - t), all.skip(all.len() - t))
    }
}

/// The bytes read, in order, without gaps or repeats: what the reads handed
/// out, followed by what is still held back, is exactly what was read.
pub proof fn lemma_decoder_keeps_every_byte(chunks: Seq<Seq<u8>>)
    ensures
        decode_run(Seq::empty(), chunks).0 + decode_run(Seq::empty(), chunks).1
            == chunks.fold_left(Seq::<u8>::empty(), |acc: Seq<u8>, c: Seq<u8>| acc + c),
    decreases chunks.len(),
{
    if chunks.len() > 0 {
        lemma_decoder_keeps_every_byte(chunks.drop_last());
        let (ready, held) = decode_run(Seq::empty(), chunks.drop_last());
        let all = held + chunks.last();
        let t = unfinished_tail(all);
        lemma_unfinished_bound(all, 1);
        assert(all.take(all.len() - t) + all.skip(all.len() - t) =~= all);
        assert(ready + all.take(all.len() - t) + all.skip(all.len() - t) =~= ready + held + chunks.last());
    }
}

} // verus!
