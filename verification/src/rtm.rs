//! Presence as the real-time messaging service reports it.

use crate::hardware::{decimal, decimal_spec};
use crate::text::concat;
use vstd::prelude::*;
use vstd::string::StrSliceExecFns;

verus! {

#[derive(Debug, Clone, Copy, PartialEq, Eq, Structural)]
pub enum BasicPresence {
    Unknown,
    Offline,
    /// Doesn't work
    Dnd,
    Away,
    Online,
}

/// A user's presence: basic state, status text, and the game product being played.
#[derive(Debug, Clone, PartialEq)]
pub struct RichPresence {
    pub basic: BasicPresence,
    pub status: String,
    pub game: Option<String>,
}

impl RichPresence {
    /// The presence of a service update: its basic state, the game status text, and the
    /// game product id (none when empty).
    pub fn from_parts(basic: BasicPresence, game_status: String, game_product_id: String) -> (r:
        Self)
        ensures
            r.basic == basic,
            r.status == game_status,
            game_product_id@.len() == 0 ==> r.game is None,
            game_product_id@.len() > 0 ==> r.game == Some(game_product_id),
    {
        let game = if game_product_id.as_str().is_empty() {
            None
        } else {
            Some(game_product_id)
        };
        RichPresence { basic, status: game_status, game }
    }
}

#[derive(Debug, Clone, PartialEq)]
pub enum RtmEvent {
    PresenceUpdate(RichPresence),
}

/// Numbers the requests sent on a real-time messaging connection.
#[derive(Debug, Clone, Copy, PartialEq, Eq, Structural)]
pub struct RequestCounter {
    pub request_index: u32,
}

/// The id of the request numbered `index`, sent at `secs` seconds after the epoch:
/// `c-<index>-<secs>-<secs>`.
pub open spec fn request_id_spec(index: nat, secs: nat) -> Seq<char> {
    "c-"@ + decimal_spec(index) + "-"@ + decimal_spec(secs) + "-"@ + decimal_spec(secs)
}

impl RequestCounter {
    /// A connection's counter before its first request.
    pub fn new() -> (r: Self)
        ensures
            r.request_index == 0,
    {
        RequestCounter { request_index: 0 }
    }

    /// The id of the next request, sent at `secs` seconds after the epoch; the next one is
    /// numbered one higher.
    pub fn next_request_id(&mut self, secs: u64) -> (r: String)
        requires
            old(self).request_index < u32::MAX,
        ensures
            r@ == request_id_spec(old(self).request_index as nat, secs as nat),
            final(self).request_index == old(self).request_index + 1,
    {
        let index = decimal(self.request_index as u64);
        let time = decimal(secs);
        let a = concat("c-", index.as_str());
        let b = concat(a.as_str(), "-");
        let c = concat(b.as_str(), time.as_str());
        let d = concat(c.as_str(), "-");
        let id = concat(d.as_str(), time.as_str());
        proof {
            reveal_strlit("c-");
            reveal_strlit("-");
        }
        self.request_index = self.request_index + 1;
        id
    }
}

/// The big-endian two's-complement 32-bit number in four bytes.
pub open spec fn be_i32(b: Seq<u8>) -> int {
    let u = b[0] as int * 0x1000000 + b[1] as int * 0x10000 + b[2] as int * 0x100 + b[3] as int;
    if u >= 0x8000_0000 {
        u - 0x1_0000_0000
    } else {
        u
    }
}

/// The measure by which framing progresses: the bytes held, and one more while a length
/// has been read.
pub open spec fn frame_measure(buf: Seq<u8>, expected: int) -> int {
    buf.len() + if expected == -1 {
        0int
    } else {
        1int
    }
}

/// The messages of the real-time messaging stream in the bytes `buf`, each a big-endian
/// 32-bit length and that many bytes, with `expected` the length already read (-1 when
/// none): the whole messages, the bytes left over, and the length read for the next one.
/// Framing waits while fewer than four bytes are held, and for good at a negative length.
pub open spec fn split_frames(buf: Seq<u8>, expected: int) -> (Seq<Seq<u8>>, Seq<u8>, int)
    decreases frame_measure(buf, expected),
{
    if buf.len() < 4 {
        (Seq::empty(), buf, expected)
    } else {
        let exp = if expected == -1 {
            be_i32(buf.take(4))
        } else {
            expected
        };
        let rest = if expected == -1 {
            buf.skip(4)
        } else {
            buf
        };
        if exp < 0 || rest.len() < exp {
            (Seq::empty(), rest, exp)
        } else {
            let next = split_frames(rest.skip(exp), -1);
            (seq![rest.take(exp)] + next.0, next.1, next.2)
        }
    }
}

proof fn lemma_header_read(buf: Seq<u8>, pos: int, value: int)
    requires
        0 <= pos,
        pos + 4 <= buf.len(),
        value == ({
            let u = buf[pos] as int * 0x1000000 + buf[pos + 1] as int * 0x10000 + buf[pos + 2] as int
                * 0x100 + buf[pos + 3] as int;
            if u >= 0x8000_0000 {
                u - 0x1_0000_0000
            } else {
                u
            }
        }),
    ensures
        value == be_i32(buf.skip(pos).take(4)),
        buf.skip(pos).skip(4) == buf.skip(pos + 4),
{
    let h = buf.skip(pos).take(4);
    assert(h[0] == buf[pos] && h[1] == buf[pos + 1] && h[2] == buf[pos + 2] && h[3] == buf[pos + 3]);
    assert(buf.skip(pos).skip(4) =~= buf.skip(pos + 4));
}

/// The contents of byte vectors.
pub open spec fn byte_views(v: Seq<Vec<u8>>) -> Seq<Seq<u8>> {
    v.map_values(|x: Vec<u8>| x@)
}

/// The framing state of a real-time messaging connection: bytes received but not yet
/// framed, and the length of the message being received (-1 when none has been read).
pub struct RtmFrameReader {
    pub pending: Vec<u8>,
    pub expected: i32,
}

impl RtmFrameReader {
    /// A connection's framing before anything is received.
    pub fn new() -> (r: Self)
        ensures
            r.pending@.len() == 0,
            r.expected == -1,
    {
        RtmFrameReader { pending: Vec::new(), expected: -1 }
    }

    /// Takes newly received bytes and gives the whole messages they complete, in order;
    /// what is left waits for more bytes.
    pub fn receive(&mut self, data: &[u8]) -> (frames: Vec<Vec<u8>>)
        ensures
            ({
                let s = split_frames(old(self).pending@ + data@, old(self).expected as int);
                &&& byte_views(frames@) == s.0
                &&& final(self).pending@ == s.1
                &&& final(self).expected as int == s.2
            }),
    {
        let ghost whole = self.pending@ + data@;
        let ghost e0 = self.expected as int;
        let mut buf = self.pending.clone();
        let mut k: usize = 0;
        assert(buf@ == self.pending@);
        while k < data.len()
            invariant
                k <= data@.len(),
                buf@ == old(self).pending@ + data@.take(k as int),
            decreases data.len() - k,
        {
            buf.push(data[k]);
            assert(data@.take(k + 1) =~= data@.take(k as int).push(data@[k as int]));
            k = k + 1;
        }
        assert(data@.take(data@.len() as int) =~= data@);
        assert(buf@.skip(0) =~= buf@);
        let mut pos: usize = 0;
        let mut expected: i32 = self.expected;
        let mut frames: Vec<Vec<u8>> = Vec::new();
        assert(byte_views(frames@) + split_frames(whole, e0).0 =~= split_frames(whole, e0).0);
        loop
            invariant_except_break
                ({
                    let t = split_frames(whole, e0);
                    let u = split_frames(buf@.skip(pos as int), expected as int);
                    &&& t.0 == byte_views(frames@) + u.0
                    &&& t.1 == u.1
                    &&& t.2 == u.2
                }),
            invariant
                buf@ == whole,
                pos <= buf@.len(),
            ensures
                ({
                    let t = split_frames(whole, e0);
                    &&& t.0 == byte_views(frames@)
                    &&& t.1 == buf@.skip(pos as int)
                    &&& t.2 == expected as int
                }),
            decreases frame_measure(buf@.skip(pos as int), expected as int),
        {
            let ghost here = buf@.skip(pos as int);
            let ghost exp_before = expected as int;
            let ghost fs0 = byte_views(frames@);
            if buf.len() - pos < 4 {
                proof {
                    assert(fs0 + Seq::<Seq<u8>>::empty() =~= fs0);
                }
                break;
            }
            if expected == -1 {
                let b0 = buf[pos] as u32;
                let b1 = buf[pos + 1] as u32;
                let b2 = buf[pos + 2] as u32;
                let b3 = buf[pos + 3] as u32;
                let u: u32 = b0 * 0x1000000 + b1 * 0x10000 + b2 * 0x100 + b3;
                expected = if u >= 0x8000_0000 {
                    (u - 0x8000_0000) as i32 - 0x4000_0000 - 0x4000_0000
                } else {
                    u as i32
                };
                proof {
                    lemma_header_read(buf@, pos as int, expected as int);
                }
                pos = pos + 4;
            }
            let ghost rest = buf@.skip(pos as int);
            proof {
                assert(exp_before == -1 ==> rest == here.skip(4));
                assert(exp_before != -1 ==> rest == here);
            }
            if expected < 0 || buf.len() - pos < expected as usize {
                proof {
                    assert(fs0 + Seq::<Seq<u8>>::empty() =~= fs0);
                }
                break;
            }
            let n = expected as usize;
            let frame = vstd::slice::slice_to_vec(vstd::slice::slice_subrange(buf.as_slice(), pos, pos + n));
            proof {
                assert(frame@ =~= rest.take(n as int));
                assert(rest.skip(n as int) =~= buf@.skip(pos + n));
            }
            let ghost before = frames@;
            frames.push(frame);
            proof {
                assert(byte_views(frames@) =~= fs0 + seq![rest.take(n as int)]);
                let nx = split_frames(rest.skip(n as int), -1);
                assert(fs0 + (seq![rest.take(n as int)] + nx.0) =~= byte_views(frames@) + nx.0);
            }
            pos = pos + n;
            expected = -1;
        }
        let left = vstd::slice::slice_to_vec(vstd::slice::slice_subrange(buf.as_slice(), pos, buf.len()));
        assert(left@ =~= buf@.skip(pos as int));
        self.pending = left;
        self.expected = expected;
        frames
    }
}

/// Where a received message goes.
#[derive(Debug, Clone, Copy, PartialEq, Eq, Structural)]
pub enum RtmRoute {
    /// To the request waiting for the reply with its id.
    Response,
    /// A message with no request id: a presence update when it has a body.
    Update,
    /// Nowhere.
    Ignore,
}

/// Routes a received message by its request id: to the waiting request when one has that
/// id, as an update when the id is empty and the message has a body, otherwise nowhere.
pub fn route_message(request_id: &str, awaited: bool, has_body: bool) -> (r: RtmRoute)
    ensures
        awaited ==> r == RtmRoute::Response,
        !awaited && request_id@.len() == 0 && has_body ==> r == RtmRoute::Update,
        !awaited && !(request_id@.len() == 0 && has_body) ==> r == RtmRoute::Ignore,
{
    if awaited {
        RtmRoute::Response
    } else if request_id.unicode_len() == 0 && has_body {
        RtmRoute::Update
    } else {
        RtmRoute::Ignore
    }
}

} // verus!
