//! In-memory HTTP responses served to the browser (mocked proxy responses
//! and `havi-frame://` replies).
use crate::text::chars_of;
use vstd::prelude::*;

verus! {

/// A response whose body is held in memory, read out front to back.
pub struct SyntheticResource {
    pub bytes: Vec<u8>,
    pub mime: String,
    pub status: u16,
    /// Extra response headers, in order.
    pub headers: Vec<(String, String)>,
    /// How many body bytes have been handed out so far.
    pub pos: usize,
}

/// The headers of a synthetic response: CORS opened to every origin, then
/// the resource's own headers.
pub open spec fn response_header_list(own: Seq<(String, String)>) -> Seq<(Seq<char>, Seq<char>)> {
    seq![("Access-Control-Allow-Origin"@, "*"@)] + own.map_values(|p: (String, String)| (p.0@, p.1@))
}

/// A response with `bytes` as body and no extra headers.
pub fn make_handler(bytes: Vec<u8>, mime: &str, status: u16) -> (r: SyntheticResource)
    ensures
        r.bytes@ == bytes@,
        r.mime@ == mime@,
        r.status == status,
        r.headers@.len() == 0,
        r.pos == 0,
{
    SyntheticResource {
        bytes,
        mime: crate::text::string_of(&chars_of(mime)),
        status,
        headers: Vec::new(),
        pos: 0,
    }
}

/// A response with `bytes` as body and the given extra headers.
pub fn make_handler_with_headers(
    bytes: Vec<u8>,
    mime: &str,
    status: u16,
    headers: Vec<(String, String)>,
) -> (r: SyntheticResource)
    ensures
        r.bytes@ == bytes@,
        r.mime@ == mime@,
        r.status == status,
        r.headers@ == headers@,
        r.pos == 0,
{
    SyntheticResource {
        bytes,
        mime: crate::text::string_of(&chars_of(mime)),
        status,
        headers,
        pos: 0,
    }
}

/// How many bytes a read asking for `want` bytes hands out at position `pos`.
pub open spec fn read_len(len: nat, pos: nat, want: int) -> nat {
    let remaining: nat = if pos <= len { (len - pos) as nat } else { 0 };
    let asked: nat = if want > 0 { want as nat } else { 0 };
    if remaining < asked { remaining } else { asked }
}

/// What one `read` hands out.
pub struct ReadChunk {
    /// 1 when bytes were handed out, 0 at the end of the body.
    pub more: i32,
    /// The bytes handed out.
    pub data: Vec<u8>,
}

impl SyntheticResource {
    /// The status, MIME type, header list and body length to answer with.
    pub fn response_headers(&self) -> (r: (i32, String, Vec<(String, String)>, i64))
        ensures
            r.0 == self.status as i32,
            r.1@ == self.mime@,
            r.2@.map_values(|p: (String, String)| (p.0@, p.1@)) == response_header_list(self.headers@),
            r.3 == (if self.bytes@.len() <= i64::MAX { self.bytes@.len() as i64 } else { i64::MAX }),
    {
        let mut hs: Vec<(String, String)> = Vec::new();
        hs.push((crate::text::string_of(&chars_of("Access-Control-Allow-Origin")), crate::text::string_of(&chars_of("*"))));
        let mut i: usize = 0;
        while i < self.headers.len()
            invariant
                i <= self.headers@.len(),
                hs@.map_values(|p: (String, String)| (p.0@, p.1@)) == response_header_list(
                    self.headers@.take(i as int),
                ),
            decreases self.headers.len() - i,
        {
            let k = self.headers[i].0.clone();
            let v = self.headers[i].1.clone();
            let ghost before = hs@;
            hs.push((k, v));
            proof {
                assert(self.headers@.take(i + 1) == self.headers@.take(i as int).push(self.headers@[i as int]));
                assert(hs@.map_values(|p: (String, String)| (p.0@, p.1@)) =~= before.map_values(
                    |p: (String, String)| (p.0@, p.1@),
                ).push((k@, v@)));
                assert(self.headers@.take(i + 1).map_values(|p: (String, String)| (p.0@, p.1@))
                    =~= self.headers@.take(i as int).map_values(|p: (String, String)| (p.0@, p.1@)).push(
                    (k@, v@),
                ));
            }
            i = i + 1;
        }
        assert(self.headers@.take(self.headers@.len() as int) == self.headers@);
        let len: i64 = if self.bytes.len() as u64 <= i64::MAX as u64 {
            self.bytes.len() as i64
        } else {
            i64::MAX
        };
        (self.status as i32, self.mime.clone(), hs, len)
    }

    /// Hands out the next (up to) `bytes_to_read` unread body bytes.
    pub fn read(&mut self, bytes_to_read: i32) -> (r: ReadChunk)
        ensures
            final(self).bytes == old(self).bytes,
            final(self).mime == old(self).mime,
            final(self).status == old(self).status,
            final(self).headers == old(self).headers,
            ({
                let n = read_len(old(self).bytes@.len(), old(self).pos as nat, bytes_to_read as int);
                &&& final(self).pos == old(self).pos + n
                &&& r.data@ == (if n == 0 {
                    Seq::<u8>::empty()
                } else {
                    old(self).bytes@.subrange(old(self).pos as int, old(self).pos + n)
                })
                &&& r.more == (if n == 0 { 0i32 } else { 1i32 })
            }),
    {
        let pos = self.pos;
        let remaining: usize = if pos <= self.bytes.len() {
            self.bytes.len() - pos
        } else {
            0
        };
        let want: usize = if bytes_to_read > 0 {
            bytes_to_read as usize
        } else {
            0
        };
        let n = if remaining < want {
            remaining
        } else {
            want
        };
        if n == 0 {
            return ReadChunk { more: 0, data: Vec::new() };
        }
        assert(pos + n <= self.bytes.len());
        let mut data: Vec<u8> = Vec::new();
        let end: usize = pos + n;
        let mut i: usize = pos;
        while i < end
            invariant
                end == pos + n,
                end <= self.bytes@.len(),
                pos <= i <= end,
                data@ == self.bytes@.subrange(pos as int, i as int),
            decreases end - i,
        {
            data.push(self.bytes[i]);
            i = i + 1;
            assert(self.bytes@.subrange(pos as int, i as int) == self.bytes@.subrange(pos as int, i - 1).push(
                self.bytes@[i - 1],
            ));
        }
        self.pos = end;
        ReadChunk { more: 1, data }
    }
}

/// Reading in two pieces hands out as much as one read asking for both
/// pieces at once, and a reader that starts within the body never moves
/// past its end.
pub proof fn law_reads_compose(len: nat, pos: nat, first: int, second: int)
    requires
        pos <= len,
        first >= 0,
        second >= 0,
    ensures
        read_len(len, pos, first) + read_len(len, pos + read_len(len, pos, first), second) == read_len(
            len,
            pos,
            first + second,
        ),
        pos + read_len(len, pos, first) <= len,
{
}

/// The bytes that successive reads asking for `wants` hand out, starting
/// at position `pos` of `bytes`, one chunk after the other.
pub open spec fn read_chunks(bytes: Seq<u8>, pos: nat, wants: Seq<int>) -> Seq<u8>
    decreases wants.len(),
{
    if wants.len() == 0 {
        Seq::empty()
    } else {
        let n = read_len(bytes.len(), pos, wants[0]);
        bytes.subrange(pos as int, (pos + n) as int) + read_chunks(bytes, pos + n, wants.drop_first())
    }
}

/// Where successive reads asking for `wants` leave the position.
pub open spec fn read_end(len: nat, pos: nat, wants: Seq<int>) -> nat
    decreases wants.len(),
{
    if wants.len() == 0 {
        pos
    } else {
        read_end(len, pos + read_len(len, pos, wants[0]), wants.drop_first())
    }
}

/// Successive reads hand out the body in order, without gaps or repeats:
/// together they are the bytes from where reading started up to where it
/// stopped, never past the end. Reads that each ask for at least one byte,
/// as many of them as bytes remain, hand out the whole rest of the body.
pub proof fn law_reads_concatenate(bytes: Seq<u8>, pos: nat, wants: Seq<int>)
    requires
        pos <= bytes.len(),
    ensures
        pos <= read_end(bytes.len(), pos, wants) <= bytes.len(),
        read_chunks(bytes, pos, wants) == bytes.subrange(pos as int, read_end(bytes.len(), pos, wants) as int),
        (forall|i: int| 0 <= i < wants.len() ==> #[trigger] wants[i] > 0) && wants.len() >= bytes.len() - pos
            ==> read_chunks(bytes, pos, wants) == bytes.subrange(pos as int, bytes.len() as int),
    decreases wants.len(),
{
    if wants.len() > 0 {
        let n = read_len(bytes.len(), pos, wants[0]);
        law_reads_concatenate(bytes, pos + n, wants.drop_first());
        assert(bytes.subrange(pos as int, read_end(bytes.len(), pos, wants) as int) =~= bytes.subrange(
            pos as int,
            (pos + n) as int,
        ) + bytes.subrange((pos + n) as int, read_end(bytes.len(), pos, wants) as int));
        if (forall|i: int| 0 <= i < wants.len() ==> #[trigger] wants[i] > 0) && wants.len() >= bytes.len()
            - pos {
            assert(wants[0] > 0);
            assert forall|i: int| 0 <= i < wants.drop_first().len() implies #[trigger] wants.drop_first()[i]
                > 0 by {
                assert(wants[i + 1] > 0);
            }
        }
    } else {
        assert(bytes.subrange(pos as int, pos as int) =~= Seq::<u8>::empty());
    }
}

/// A response made by `make_handler` answers with the CORS header and no
/// other: its header list is exactly `Access-Control-Allow-Origin: *`.
pub proof fn law_plain_handler_headers(res: SyntheticResource)
    requires
        res.headers@.len() == 0,
    ensures
        response_header_list(res.headers@) == seq![("Access-Control-Allow-Origin"@, "*"@)],
{
    assert(res.headers@.map_values(|p: (String, String)| (p.0@, p.1@)) =~= Seq::<(Seq<char>, Seq<char>)>::empty());
    assert(response_header_list(res.headers@) =~= seq![("Access-Control-Allow-Origin"@, "*"@)]);
}

/// A fresh response (as `make_handler` makes it: nothing read yet, no
/// extra headers) answers with the CORS header alone, and reads that each
/// ask for at least one byte, as many as the body has bytes, hand out the
/// whole body in order; every read after that hands out nothing.
pub proof fn law_fresh_response_serves_body(res: SyntheticResource, wants: Seq<int>, later: int)
    requires
        res.pos == 0,
        res.headers@.len() == 0,
        forall|i: int| 0 <= i < wants.len() ==> #[trigger] wants[i] > 0,
        wants.len() >= res.bytes@.len(),
    ensures
        response_header_list(res.headers@) == seq![("Access-Control-Allow-Origin"@, "*"@)],
        read_chunks(res.bytes@, 0, wants) == res.bytes@,
        read_end(res.bytes@.len(), 0, wants) == res.bytes@.len(),
        read_len(res.bytes@.len(), read_end(res.bytes@.len(), 0, wants), later) == 0,
{
    law_plain_handler_headers(res);
    law_reads_concatenate(res.bytes@, 0, wants);
    assert(res.bytes@.subrange(0, res.bytes@.len() as int) =~= res.bytes@);
}

} // verus!
