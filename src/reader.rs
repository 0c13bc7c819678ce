//! The stream reader's cutting of raw output into line chunks.
//!
//! Bytes arrive in blocks of any size. Each chunk handed on ends with the
//! `'\n'` that closed it, except the last one of a stream, which holds what
//! followed the final newline. The chunks, joined, are the stream without
//! the `'\r'` of each CRLF line ending; nothing else is dropped or changed.

use vstd::prelude::*;
use vstd::utf8::{encode_utf8, valid_utf8};

verus! {

broadcast use vstd::seq_lib::group_seq_properties;

pub open spec fn is_newline(b: u8) -> bool {
    b == 10u8
}

/// A chunk that a line closed: it ends with the newline and holds no other.
pub open spec fn is_line_chunk(c: Seq<u8>) -> bool {
    &&& c.len() > 0
    &&& is_newline(c.last())
    &&& forall|i: int| 0 <= i < c.len() - 1 ==> !is_newline(#[trigger] c[i])
}

pub open spec fn is_cr(b: u8) -> bool {
    b == 13u8
}

/// `s` with the `'\r'` removed that stands right before each `'\n'`.
pub open spec fn crlf_to_lf_bytes(s: Seq<u8>) -> Seq<u8>
    decreases s.len(),
{
    if s.len() == 0 {
        s
    } else if s.len() >= 2 && is_newline(s.last()) && is_cr(s[s.len() - 2]) {
        crlf_to_lf_bytes(s.drop_last().drop_last()).push(s.last())
    } else {
        crlf_to_lf_bytes(s.drop_last()).push(s.last())
    }
}

/// The normalised stream ends with the stream's last byte.
pub proof fn lemma_crlf_last(s: Seq<u8>)
    ensures
        s.len() > 0 ==> crlf_to_lf_bytes(s).len() > 0 && crlf_to_lf_bytes(s).last() == s.last(),
        s.len() == 0 ==> crlf_to_lf_bytes(s).len() == 0,
{
}

pub open spec fn has_no_newline(s: Seq<u8>) -> bool {
    forall|i: int| 0 <= i < s.len() ==> !is_newline(#[trigger] s[i])
}

/// The views of a list of chunks.
pub open spec fn chunk_views(v: Seq<Vec<u8>>) -> Seq<Seq<u8>> {
    v.map_values(|c: Vec<u8>| c@)
}

/// The text of a chunk, each invalid UTF-8 sequence in it replaced by
/// U+FFFD.
pub uninterp spec fn lossy_text_of(bytes: Seq<u8>) -> Seq<char>;

/// Relies on `String::from_utf8_lossy`: valid UTF-8 is decoded as it is, and
/// each invalid sequence becomes U+FFFD.
#[verifier::external_body]
fn lossy_text(bytes: &[u8]) -> (r: String)
    ensures
        r@ == lossy_text_of(bytes@),
        valid_utf8(bytes@) ==> encode_utf8(r@) == bytes@,
{
    String::from_utf8_lossy(bytes).into_owned()
}

/// The texts of the chunks, in order, as they are handed to the UI.
pub fn chunk_texts(chunks: &Vec<Vec<u8>>) -> (r: Vec<String>)
    ensures
        r@.len() == chunks@.len(),
        forall|i: int| 0 <= i < r@.len() ==> #[trigger] r@[i]@ == lossy_text_of(chunks@[i]@),
{
    let mut r: Vec<String> = Vec::new();
    let mut i: usize = 0;
    while i < chunks.len()
        invariant
            i <= chunks@.len(),
            r@.len() == i,
            forall|k: int| 0 <= k < i ==> #[trigger] r@[k]@ == lossy_text_of(chunks@[k]@),
        decreases chunks@.len() - i,
    {
        r.push(lossy_text(chunks[i].as_slice()));
        i = i + 1;
    }
    r
}

/// Cuts one output stream into line chunks, block by block.
pub struct LineChunker {
    pending: Vec<u8>,
    /// Every byte fed so far.
    seen: Ghost<Seq<u8>>,
    /// Every chunk handed out so far.
    sent: Ghost<Seq<Seq<u8>>>,
}

impl LineChunker {
    /// The bytes held back since the last newline.
    pub closed spec fn pending_bytes(&self) -> Seq<u8> {
        self.pending@
    }

    /// Every byte fed so far.
    pub closed spec fn fed(&self) -> Seq<u8> {
        self.seen@
    }

    /// Every chunk handed out so far.
    pub closed spec fn handed_out(&self) -> Seq<Seq<u8>> {
        self.sent@
    }

    pub closed spec fn wf(&self) -> bool {
        &&& has_no_newline(self.pending@)
        &&& self.sent@.flatten() + self.pending@ == crlf_to_lf_bytes(self.seen@)
        &&& forall|i: int| 0 <= i < self.sent@.len() ==> is_line_chunk(#[trigger] self.sent@[i])
        &&& (self.seen@.len() > 0 && is_cr(self.seen@.last())) ==> (self.pending@.len() > 0
            && is_cr(self.pending@.last()))
    }

    pub fn new() -> (r: LineChunker)
        ensures
            r.wf(),
            r.fed() == Seq::<u8>::empty(),
            r.handed_out() == Seq::<Seq<u8>>::empty(),
            r.pending_bytes() == Seq::<u8>::empty(),
    {
        LineChunker { pending: Vec::new(), seen: Ghost(Seq::empty()), sent: Ghost(Seq::empty()) }
    }

    /// Feeds one block read from the stream; returns the lines it completed,
    /// each without the `'\r'` of a CRLF ending.
    pub fn push(&mut self, data: &[u8]) -> (chunks: Vec<Vec<u8>>)
        requires
            old(self).wf(),
        ensures
            final(self).wf(),
            final(self).fed() == old(self).fed() + data@,
            final(self).handed_out() == old(self).handed_out() + chunk_views(chunks@),
            final(self).handed_out().flatten() + final(self).pending_bytes() == crlf_to_lf_bytes(
                final(self).fed(),
            ),
            forall|i: int| 0 <= i < chunks@.len() ==> is_line_chunk(#[trigger] chunks@[i]@),
            has_no_newline(final(self).pending_bytes()),
    {
        let mut chunks: Vec<Vec<u8>> = Vec::new();
        let mut i: usize = 0;
        while i < data.len()
            invariant
                self.wf(),
                i <= data@.len(),
                self.seen@ == old(self).seen@ + data@.subrange(0, i as int),
                self.sent@ == old(self).sent@ + chunk_views(chunks@),
                forall|k: int| 0 <= k < chunks@.len() ==> is_line_chunk(#[trigger] chunks@[k]@),
            decreases data@.len() - i,
        {
            let b = data[i];
            let ghost s0 = self.seen@;
            let ghost f = self.sent@.flatten();
            proof {
                assert(data@.subrange(0, i + 1) =~= data@.subrange(0, i as int).push(b));
                assert(s0.push(b).drop_last() =~= s0);
                lemma_crlf_last(s0);
            }
            if b != 10u8 {
                let ghost p0 = self.pending@;
                self.pending.push(b);
                proof {
                    assert(!is_newline(s0.push(b).last()));
                    assert(crlf_to_lf_bytes(s0.push(b)) == crlf_to_lf_bytes(s0).push(b));
                    self.seen@ = s0.push(b);
                    assert(f + self.pending@ =~= (f + p0).push(b));
                    assert(self.pending@.last() == b);
                }
            } else {
                let n = self.pending.len();
                if n > 0 && self.pending[n - 1] == 13u8 {
                    let ghost p0 = self.pending@;
                    self.pending.pop();
                    proof {
                        assert(s0.len() > 0 && is_cr(s0.last()));
                        assert(s0.push(b).drop_last().drop_last() =~= s0.drop_last());
                        assert(s0.push(b)[s0.push(b).len() - 2] == s0.last());
                        assert(crlf_to_lf_bytes(s0) == crlf_to_lf_bytes(s0.drop_last()).push(13u8));
                        assert(f + self.pending@ =~= (f + p0).drop_last());
                        assert(crlf_to_lf_bytes(s0.push(b)) == crlf_to_lf_bytes(s0.drop_last()).push(b));
                        assert(has_no_newline(self.pending@)) by {
                            assert forall|k: int| 0 <= k < self.pending@.len() implies !is_newline(
                                #[trigger] self.pending@[k],
                            ) by {
                                assert(self.pending@[k] == p0[k]);
                            }
                        }
                    }
                } else {
                    proof {
                        assert(!(s0.len() > 0 && is_cr(s0.last())));
                        assert(s0.len() > 0 ==> s0.push(b)[s0.push(b).len() - 2] == s0.last());
                        assert(crlf_to_lf_bytes(s0.push(b)) == crlf_to_lf_bytes(s0).push(b));
                    }
                }
                let ghost p1 = self.pending@;
                self.pending.push(b);
                let mut line: Vec<u8> = Vec::new();
                core::mem::swap(&mut line, &mut self.pending);
                let ghost cv_before = chunk_views(chunks@);
                chunks.push(line);
                proof {
                    self.seen@ = s0.push(b);
                    assert(line@ =~= p1.push(b));
                    assert(f + line@ =~= (f + p1).push(b));
                    assert(chunk_views(chunks@) =~= cv_before.push(line@));
                    let prev = self.sent@;
                    prev.lemma_flatten_push(line@);
                    self.sent@ = self.sent@.push(line@);
                    assert(self.sent@ =~= old(self).sent@ + chunk_views(chunks@));
                    assert(self.pending@ =~= Seq::<u8>::empty());
                    assert(self.sent@.flatten() + self.pending@ =~= self.sent@.flatten());
                }
            }
            proof {
                assert(self.sent@.flatten() + self.pending@ == crlf_to_lf_bytes(self.seen@));
                assert(forall|k: int|
                    0 <= k < self.sent@.len() ==> is_line_chunk(#[trigger] self.sent@[k]));
            }
            i = i + 1;
        }
        proof {
            assert(data@.subrange(0, data@.len() as int) =~= data@);
        }
        chunks
    }

    /// Ends the stream: what followed the last newline, if anything did.
    /// All the chunks handed out, joined, are the stream without the `'\r'`
    /// of its CRLF line endings.
    pub fn finish(self) -> (last: Option<Vec<u8>>)
        requires
            self.wf(),
        ensures
            last is None <==> self.pending_bytes().len() == 0,
            last matches Some(c) ==> c@ == self.pending_bytes(),
            ({
                let all = match last {
                    Some(c) => self.handed_out().push(c@),
                    None => self.handed_out(),
                };
                all.flatten() == crlf_to_lf_bytes(self.fed())
            }),
    {
        if self.pending.len() == 0 {
            proof {
                assert(self.sent@.flatten() + self.pending@ =~= self.sent@.flatten());
            }
            None
        } else {
            proof {
                self.sent@.lemma_flatten_push(self.pending@);
            }
            Some(self.pending)
        }
    }
}

} // verus!
