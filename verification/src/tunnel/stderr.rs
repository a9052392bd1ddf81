//! Bounded, memory-only diagnostics for SSH launched without a terminal.

use vstd::prelude::*;

use crate::text;

verus! {

/// How much of what `ssh` says is kept, in bytes.
pub const TAIL_BYTES: usize = 8192;

/// How often the pipe is read once `ssh` is gone, so that a descendant that
/// keeps writing does not hold up a shutdown.
pub const LAST_READS: usize = 64;

/// The end of what was said.
#[derive(Debug, PartialEq, Eq)]
pub struct Tail {
    pub bytes: Vec<u8>,
}

/// The last `n` of a sequence, or all of it.
pub open spec fn last_of(s: Seq<u8>, n: nat) -> Seq<u8> {
    if s.len() <= n {
        s
    } else {
        s.skip(s.len() - n)
    }
}

impl Tail {
    /// No more is kept than may be.
    pub open spec fn wf(self) -> bool {
        self.bytes@.len() <= TAIL_BYTES
    }

    pub fn new() -> (t: Tail)
        ensures
            t.wf(),
            t.bytes@.len() == 0,
    {
        Tail { bytes: Vec::new() }
    }

    /// More was said; what came first goes first.
    pub fn append(&mut self, more: &[u8])
        requires
            old(self).wf(),
        ensures
            final(self).wf(),
            final(self).bytes@ == last_of(old(self).bytes@ + more@, TAIL_BYTES as nat),
    {
        let n: usize = self.bytes.len();
        let m: usize = more.len();
        let keep: usize = if m >= TAIL_BYTES {
            0
        } else if n + m <= TAIL_BYTES {
            n
        } else {
            TAIL_BYTES - m
        };
        let from: usize = if m > TAIL_BYTES {
            m - TAIL_BYTES
        } else {
            0
        };
        let ghost all = self.bytes@ + more@;
        let mut kept: Vec<u8> = Vec::new();
        let mut i: usize = n - keep;
        while i < n
            invariant
                keep <= n,
                n - keep <= i <= n,
                n == self.bytes.len(),
                self.bytes@ == old(self).bytes@,
                kept@ == self.bytes@.subrange(n - keep, i as int),
            decreases n - i,
        {
            kept.push(self.bytes[i]);
            i = i + 1;
            assert(kept@ =~= self.bytes@.subrange(n - keep, i as int));
        }
        let ghost head = kept@;
        let mut j: usize = from;
        while j < m
            invariant
                from <= j <= m,
                m == more.len(),
                kept@ == head + more@.subrange(from as int, j as int),
            decreases m - j,
        {
            kept.push(more[j]);
            j = j + 1;
            assert(kept@ =~= head + more@.subrange(from as int, j as int));
        }
        assert(kept@ =~= last_of(all, TAIL_BYTES as nat));
        self.bytes = kept;
    }
}

/// Reading in pieces or at once keeps the same end.
pub proof fn law_pieces_do_not_matter(a: Seq<u8>, b: Seq<u8>, n: nat)
    ensures
        last_of(last_of(a, n) + b, n) == last_of(a + b, n),
{
    assert(last_of(last_of(a, n) + b, n) =~= last_of(a + b, n));
}

/// A character that can be shown: no control but those that part lines and
/// columns.
pub open spec fn shown(c: char) -> bool {
    !text::control(c) || c == '\n' || c == '\t'
}

/// The characters of a text that can be shown.
pub open spec fn only_shown(s: Seq<char>) -> Seq<char>
    decreases s.len(),
{
    if s.len() == 0 {
        s
    } else if shown(s.last()) {
        only_shown(s.drop_last()).push(s.last())
    } else {
        only_shown(s.drop_last())
    }
}

/// Readable diagnostics, without the terminal controls a banner can hold.
pub fn readable(s: &str) -> (r: String)
    ensures
        r@ == text::trim(only_shown(s@)),
{
    let v = text::chars_of(s);
    let mut kept: Vec<char> = Vec::new();
    let mut i: usize = 0;
    assert(v@.take(0) =~= Seq::<char>::empty());
    while i < v.len()
        invariant
            i <= v.len(),
            kept@ == only_shown(v@.take(i as int)),
        decreases v.len() - i,
    {
        assert(v@.take(i + 1).drop_last() =~= v@.take(i as int));
        if !text::is_control(v[i]) || v[i] == '\n' || v[i] == '\t' {
            kept.push(v[i]);
        }
        i = i + 1;
    }
    assert(v@.take(i as int) =~= v@);
    let t = text::trimmed_chars(&kept);
    text::string_of(&t)
}

/// What `ssh` said in the end, made readable.
pub fn finish(tail: &Tail) -> (r: String)
    ensures
        r@ == text::trim(only_shown(text::lossy(tail.bytes@))),
        vstd::utf8::valid_utf8(tail.bytes@) ==> r@ == text::trim(
            only_shown(vstd::utf8::decode_utf8(tail.bytes@)),
        ),
{
    let s = text::decode(&tail.bytes);
    readable(s.as_str())
}

/// Of what ssh said the last 8192 bytes are kept, in their order.
pub proof fn law_last_bytes_are_kept(s: Seq<u8>, i: int)
    ensures
        ({
            let kept = last_of(s, TAIL_BYTES as nat);
            &&& kept.len() == if s.len() <= 8192 {
                s.len()
            } else {
                8192
            }
            &&& 0 <= i < kept.len() ==> kept[i] == s[s.len() - kept.len() + i]
        }),
        LAST_READS == 64,
{
}

/// Control characters are left out, but for line feeds and tabs; every other
/// character stays where it is among the others.
pub proof fn law_control_characters_are_left_out(s: Seq<char>, c: char)
    ensures
        only_shown(Seq::empty()).len() == 0,
        !text::control(c) || c == '\n' || c == '\t' ==> only_shown(s.push(c)) == only_shown(s).push(c),
        text::control(c) && c != '\n' && c != '\t' ==> only_shown(s.push(c)) == only_shown(s),
{
    assert(s.push(c).drop_last() =~= s);
}

} // verus!
