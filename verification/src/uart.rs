//! Frames of the router on a serial line.
//!
//! A frame is the payload followed by its CRC-16/USB checksum, big endian,
//! encoded with Consistent Overhead Byte Stuffing so that it holds no zero
//! byte; a zero byte ends it on the line.

use crate::network::InterfaceError;
use heapless::spsc::Queue;
use vstd::prelude::*;

verus! {

/// The bytes that `cobs::encode` writes for `source`.
pub uninterp spec fn cobs_encoding(source: Seq<u8>) -> Seq<u8>;

/// What `cobs::decode_in_place` decodes of `buf`, or `None` where it fails.
pub uninterp spec fn cobs_decoding(buf: Seq<u8>) -> Option<Seq<u8>>;

/// The bytes of `s` before its first zero byte, or all of them where it
/// holds none.
pub open spec fn before_zero(s: Seq<u8>) -> Seq<u8>
    decreases s.len(),
{
    if s.len() == 0 {
        s
    } else if s[0] == 0 {
        Seq::empty()
    } else {
        seq![s[0]] + before_zero(s.drop_first())
    }
}

/// Bytes without a zero pass whole in front of what follows them.
pub proof fn lemma_before_zero(e: Seq<u8>, t: Seq<u8>)
    requires
        forall|i: int| 0 <= i < e.len() ==> e[i] != 0,
    ensures
        before_zero(e + t) == e + before_zero(t),
    decreases e.len(),
{
    if e.len() > 0 {
        let rest = e.drop_first();
        lemma_before_zero(rest, t);
        assert((e + t)[0] == e[0]);
        assert((e + t).drop_first() =~= rest + t);
        assert(seq![e[0]] + (rest + before_zero(t)) =~= e + before_zero(t));
    } else {
        assert(e + t =~= t);
        assert(e + before_zero(t) =~= before_zero(t));
    }
}

/// An encoding without a zero byte reads the same alone, ended by its zero
/// byte, and followed by any further bytes.
pub proof fn lemma_before_zero_of_frame(e: Seq<u8>, rest: Seq<u8>)
    requires
        forall|i: int| 0 <= i < e.len() ==> e[i] != 0,
    ensures
        before_zero(e) == e,
        before_zero(e.push(0u8)) == e,
        before_zero(e.push(0u8) + rest) == e,
{
    let z = seq![0u8];
    assert(before_zero(Seq::<u8>::empty()) == Seq::<u8>::empty());
    lemma_before_zero(e, Seq::empty());
    assert(e + Seq::<u8>::empty() =~= e);
    assert(before_zero(z) =~= Seq::<u8>::empty());
    lemma_before_zero(e, z);
    assert(e + z =~= e.push(0u8));
    assert((z + rest)[0] == 0u8);
    assert(before_zero(z + rest) =~= Seq::<u8>::empty());
    lemma_before_zero(e, z + rest);
    assert(e + (z + rest) =~= e.push(0u8) + rest);
    assert(e + Seq::<u8>::empty() =~= e);
}

/// The CRC-16/USB checksum of `msg`.
pub uninterp spec fn crc16_usb(msg: Seq<u8>) -> u16;

/// The room that `cobs::max_encoding_length` computes for a message of `n`
/// bytes.
pub open spec fn cobs_max_encoding_length(n: int) -> int {
    n + n / 254 + if n % 254 > 0 {
        1int
    } else {
        0int
    }
}

/// Encodes `source` into the front of `dest` with `cobs::encode` and returns
/// the length of the encoding.
///
/// The contract claims of `cobs::encode`: with a destination one byte longer
/// than `cobs::max_encoding_length` of the source it does not panic, writes
/// its encoding, of at most that many bytes, to the front of the
/// destination, and that encoding decodes to the source again. The
/// encoding holds no zero byte, and it takes one code byte more than the
/// source for every 254 source bytes, plus one.
#[verifier::external_body]
fn cobs_encode(source: &[u8], dest: &mut [u8]) -> (n: usize)
    requires
        old(dest)@.len() >= cobs_max_encoding_length(source@.len() as int) + 1,
    ensures
        final(dest)@.len() == old(dest)@.len(),
        n <= old(dest)@.len(),
        final(dest)@.take(n as int) == cobs_encoding(source@),
        cobs_decoding(final(dest)@.take(n as int)) == Some(source@),
        n <= source@.len() + source@.len() / 254 + 1,
        forall|i: int| 0 <= i < n ==> final(dest)@[i] != 0,
{
    cobs::encode(source, dest)
}

/// Decodes the message at the front of `buf` in place with
/// `cobs::decode_in_place` and returns its length.
///
/// The contract claims of `cobs::decode_in_place`: it keeps the length of
/// the buffer, and its result is the decoding of the buffer's old contents,
/// which it leaves at the front of the buffer. Decoding stops at the first
/// zero byte: it decodes the bytes before it as it decodes them alone.
#[verifier::external_body]
fn cobs_decode_in_place(buf: &mut [u8]) -> (r: Result<usize, ()>)
    ensures
        final(buf)@.len() == old(buf)@.len(),
        match r {
            Ok(n) => n <= old(buf)@.len() && cobs_decoding(old(buf)@) == Some(
                final(buf)@.take(n as int),
            ),
            Err(_) => cobs_decoding(old(buf)@) is None,
        },
        cobs_decoding(old(buf)@) == cobs_decoding(before_zero(old(buf)@)),
{
    cobs::decode_in_place(buf)
}

/// The CRC-16/USB checksum of `msg`, from `crc16::State::<USB>::calculate`.
#[verifier::external_body]
fn crc16_usb_calculate(msg: &[u8]) -> (crc: u16)
    ensures
        crc == crc16_usb(msg@),
{
    crc16::State::<crc16::USB>::calculate(msg)
}

/// The length of the encoding of a message of `raw_len` bytes, with its
/// terminating zero byte.
pub open spec fn encoded_len(raw_len: int) -> int {
    raw_len + (if raw_len == 0 {
        1
    } else {
        (raw_len + 253) / 254
    }) + 1
}

/// The length of the encoding of a message of `raw_len` bytes, with its
/// terminating zero byte: one overhead byte for every 254 bytes, at least
/// one.
pub fn max_encoded_len(raw_len: usize) -> (n: usize)
    requires
        raw_len + 253 <= usize::MAX,
        encoded_len(raw_len as int) <= usize::MAX,
    ensures
        n == encoded_len(raw_len as int),
{
    let overhead: usize = if raw_len == 0 {
        1
    } else {
        (raw_len + 253) / 254
    };
    raw_len + overhead + 1
}

/// The bytes that are encoded for the payload `pl`: the payload and its
/// checksum, big endian.
pub open spec fn frame_body(pl: Seq<u8>) -> Seq<u8> {
    pl + seq![(crc16_usb(pl) / 256) as u8, (crc16_usb(pl) % 256) as u8]
}

/// The payload of the frame at the front of `buf`, up to its first zero
/// byte, where it decodes to a message of at least two bytes whose last two
/// bytes are the checksum of the others, big endian.
pub open spec fn frame_payload(buf: Seq<u8>) -> Option<Seq<u8>> {
    match cobs_decoding(before_zero(buf)) {
        None => None,
        Some(d) => if d.len() < 2 {
            None
        } else {
            let msg = d.take(d.len() - 2);
            if d[d.len() - 2] * 256 + d[d.len() - 1] == crc16_usb(msg) {
                Some(msg)
            } else {
                None
            }
        },
    }
}

/// A frame decodes to the same payload alone, ended by its zero byte, and
/// followed by further bytes after that zero byte: where `encode` wrote the
/// encoding `e` of a payload, `decode` gives that payload back from each of
/// the three.
pub proof fn lemma_frame_decodes_to_zero(e: Seq<u8>, rest: Seq<u8>)
    requires
        forall|i: int| 0 <= i < e.len() ==> e[i] != 0,
    ensures
        frame_payload(e) == frame_payload(e.push(0u8)),
        frame_payload(e.push(0u8) + rest) == frame_payload(e.push(0u8)),
{
    lemma_before_zero_of_frame(e, rest);
}

/// The sizes fit in a `usize` for frames of up to `mtu` payload bytes.
pub open spec fn mtu_fits(mtu: int) -> bool {
    &&& mtu + 257 <= usize::MAX
    &&& encoded_len(mtu + 4) + 1 <= usize::MAX
}

/// A frame of a payload of at most `MTU` bytes.
pub struct UartFrame<'p, const MTU: usize> {
    /// The payload.
    pub pl: &'p [u8],
}

/// `encoded_len` grows with the length of the message.
proof fn lemma_encoded_len_monotone(a: int, b: int)
    requires
        0 <= a <= b,
    ensures
        encoded_len(a) <= encoded_len(b),
{
    if a > 0 {
        vstd::arithmetic::div_mod::lemma_div_is_ordered(a + 253, b + 253, 254);
    }
}

impl<'p, const MTU: usize> UartFrame<'p, MTU> {
    /// The longest message that a frame decodes to: room for a virtual link
    /// id, the payload and the checksum.
    pub fn max_decoded_len() -> (n: usize)
        requires
            mtu_fits(MTU as int),
        ensures
            n == 2 + MTU + 2,
    {
        2 + MTU + 2
    }

    /// The room for the encoding of the longest frame, with one byte to
    /// spare.
    pub fn max_encoded_len() -> (n: usize)
        requires
            mtu_fits(MTU as int),
        ensures
            n == encoded_len(MTU + 4) + 1,
    {
        max_encoded_len(2 * 2 + MTU) + 1
    }

    /// The room that the encoding of this frame may take.
    pub fn frame_encoded_len(&self) -> (n: usize)
        requires
            self.pl@.len() + 257 <= usize::MAX,
            encoded_len(self.pl@.len() + 4int) <= usize::MAX,
        ensures
            n == encoded_len(self.pl@.len() + 4int),
    {
        max_encoded_len(2 + self.pl.len() + 2)
    }

    /// Encodes the frame into the front of `encoded` and returns the length
    /// of the encoding, which holds no terminating zero byte.
    ///
    /// Fails where the payload is longer than `MTU` or `encoded` is shorter
    /// than `frame_encoded_len`. The encoding, ended by a zero byte, decodes
    /// to this payload again.
    pub fn encode(&self, encoded: &mut [u8]) -> (r: Result<usize, ()>)
        requires
            mtu_fits(MTU as int),
        ensures
            final(encoded)@.len() == old(encoded)@.len(),
            if self.pl@.len() > MTU || encoded_len(self.pl@.len() + 4int) > old(encoded)@.len() {
                r is Err && final(encoded)@ == old(encoded)@
            } else {
                r matches Ok(n) && n <= old(encoded)@.len() && final(encoded)@.take(n as int)
                    == cobs_encoding(frame_body(self.pl@)) && frame_payload(
                    final(encoded)@.take(n as int).push(0u8),
                ) == Some(self.pl@) && n + 1 <= encoded_len(self.pl@.len() + 4int) && forall|i: int|
                    0 <= i < n ==> final(encoded)@[i] != 0
            },
    {
        if self.pl.len() > MTU {
            return Err(());
        }
        proof {
            lemma_encoded_len_monotone(self.pl@.len() + 4int, MTU + 4int);
        }
        if self.frame_encoded_len() > encoded.len() {
            return Err(());
        }
        let len = self.pl.len();
        let mut body: Vec<u8> = Vec::new();
        let mut i: usize = 0;
        while i < len
            invariant
                len == self.pl@.len(),
                0 <= i <= len,
                body@ == self.pl@.take(i as int),
            decreases len - i,
        {
            body.push(self.pl[i]);
            proof {
                assert(self.pl@.take(i + 1) =~= self.pl@.take(i as int).push(self.pl@[i as int]));
            }
            i = i + 1;
        }
        proof {
            assert(self.pl@.take(len as int) =~= self.pl@);
        }
        let crc = crc16_usb_calculate(self.pl);
        body.push((crc / 256) as u8);
        body.push((crc % 256) as u8);
        proof {
            assert(body@ =~= frame_body(self.pl@));
            let m = len + 2;
            vstd::arithmetic::div_mod::lemma_div_is_ordered(m, m + 255, 254);
            assert(cobs_max_encoding_length(m) + 1 <= encoded_len(len + 4));
        }
        let n = cobs_encode(body.as_slice(), encoded);
        proof {
            lemma_before_zero_of_frame(encoded@.take(n as int), Seq::empty());
            let d = frame_body(self.pl@);
            assert(d.take(d.len() - 2) =~= self.pl@);
            assert(d[d.len() - 2] * 256 + d[d.len() - 1] == crc16_usb(self.pl@));
        }
        Ok(n)
    }

    /// Decodes the frame at the front of `buf` in place and returns the
    /// length of its payload, which it leaves at the front of `buf`.
    ///
    /// Fails where the frame does not decode, decodes to less than two
    /// bytes, or its checksum does not match its payload.
    pub fn decode(buf: &mut [u8]) -> (r: Result<usize, ()>)
        ensures
            final(buf)@.len() == old(buf)@.len(),
            match frame_payload(old(buf)@) {
                None => r is Err,
                Some(p) => p.len() <= old(buf)@.len() && r == Ok::<usize, ()>(p.len() as usize)
                    && final(buf)@.take(p.len() as int) == p,
            },
    {
        let declen = match cobs_decode_in_place(buf) {
            Ok(n) => n,
            Err(()) => {
                return Err(());
            },
        };
        let crclen: usize = 2;
        if declen < crclen {
            return Err(());
        }
        let ghost d = buf@.take(declen as int);
        let msglen = declen - crclen;
        let rcrc: u16 = buf[msglen] as u16 * 256 + buf[msglen + 1] as u16;
        let msg = vstd::slice::slice_subrange(buf, 0, msglen);
        assert(msg@ =~= d.take(d.len() - 2));
        let crc = crc16_usb_calculate(msg);
        if rcrc != crc {
            return Err(());
        }
        Ok(msglen)
    }
}


/// The single-producer single-consumer queue of `heapless`.
#[verifier::external_type_specification]
#[verifier::external_body]
#[verifier::reject_recursive_types(T)]
pub struct ExQueue<T, const N: usize>(Queue<T, N>);

/// The bytes that a receive queue holds, oldest first.
pub uninterp spec fn rx_contents(q: Queue<u8, 20000>) -> Seq<u8>;

/// The number of bytes that a receive queue can hold: one less than its
/// capacity parameter.
pub open spec fn rx_capacity() -> int {
    19999
}

/// An empty queue, from `heapless::spsc::Queue::new`.
#[verifier::external_body]
fn rx_new() -> (q: Queue<u8, 20000>)
    ensures
        rx_contents(q) == Seq::<u8>::empty(),
{
    Queue::new()
}

/// Appends `b` with `heapless::spsc::Queue::enqueue`: where the queue holds
/// fewer than `rx_capacity()` bytes the byte goes to the back; otherwise the
/// queue stays as it is and the byte is handed back.
#[verifier::external_body]
fn rx_enqueue(q: &mut Queue<u8, 20000>, b: u8) -> (r: Result<(), u8>)
    ensures
        rx_contents(*old(q)).len() < rx_capacity() ==> r is Ok,
        rx_contents(*old(q)).len() < rx_capacity() ==> rx_contents(*final(q)) == rx_contents(*old(q)).push(b),
        rx_contents(*old(q)).len() >= rx_capacity() ==> (r matches Err(x) && x == b),
        rx_contents(*old(q)).len() >= rx_capacity() ==> rx_contents(*final(q)) == rx_contents(*old(q)),
{
    q.enqueue(b)
}

/// Takes the oldest byte with `heapless::spsc::Queue::dequeue`, or `None`
/// from an empty queue, which stays as it is.
#[verifier::external_body]
fn rx_dequeue(q: &mut Queue<u8, 20000>) -> (r: Option<u8>)
    ensures
        rx_contents(*old(q)).len() == 0 ==> r is None,
        rx_contents(*old(q)).len() == 0 ==> rx_contents(*final(q)) == rx_contents(*old(q)),
        rx_contents(*old(q)).len() > 0 ==> r == Some(rx_contents(*old(q))[0]),
        rx_contents(*old(q)).len() > 0 ==> rx_contents(*final(q)) == rx_contents(*old(q)).drop_first(),
{
    q.dequeue()
}

/// The bytes received from a serial line that no frame has taken yet.
pub struct RxBuffer {
    /// The bytes, oldest first.
    pub queue: Queue<u8, 20000>,
}

impl View for RxBuffer {
    type V = Seq<u8>;

    open spec fn view(&self) -> Seq<u8> {
        rx_contents(self.queue)
    }
}

/// `k` bytes taken from the front of `c`, at most `max` of them, make a
/// frame: they stop after the first zero byte, at `max` bytes or at the end
/// of `c`, whichever comes first.
pub open spec fn frame_cut(c: Seq<u8>, max: int, k: int) -> bool {
    &&& 0 <= k <= max
    &&& k <= c.len()
    &&& forall|i: int| 0 <= i < k - 1 ==> c[i] != 0
    &&& k == max || k == c.len() || (k > 0 && c[k - 1] == 0)
}

/// The encoding `bytes` can go on the line as a frame that is cut at `max`
/// bytes: it holds no zero byte, and with its terminating zero byte it takes
/// at most `max` bytes.
pub open spec fn on_line(bytes: Seq<u8>, max: int) -> bool {
    &&& bytes.len() + 1 <= max
    &&& forall|i: int| 0 <= i < bytes.len() ==> bytes[i] != 0
}

/// A frame on the line comes back whole: where the encoding `bytes` of the
/// payload `p`, ended by its zero byte, is followed on the line by any bytes
/// `rest`, the frame cut from the front of the line is exactly that
/// encoding with its zero byte, it gives back `p`, and `rest` stays on the
/// line.
pub proof fn lemma_line_round_trip(bytes: Seq<u8>, p: Seq<u8>, rest: Seq<u8>, max: int, k: int)
    requires
        frame_payload(bytes.push(0u8)) == Some(p),
        on_line(bytes, max),
        frame_cut(bytes.push(0u8) + rest, max, k),
    ensures
        k == bytes.len() + 1,
        (bytes.push(0u8) + rest).take(k) == bytes.push(0u8),
        frame_payload((bytes.push(0u8) + rest).take(k)) == Some(p),
        (bytes.push(0u8) + rest).skip(k) == rest,
{
    let c = bytes.push(0u8) + rest;
    let n = bytes.len() as int;
    assert(c[n] == 0u8);
    if k <= n {
        if k > 0 {
            assert(c[k - 1] == bytes[k - 1]);
        }
        assert(false);
    }
    if k > n + 1 {
        assert(c[n] != 0);
    }
    assert(c.take(k) =~= bytes.push(0u8));
    assert(c.skip(k) =~= rest);
}

impl RxBuffer {
    /// An empty receive buffer.
    pub fn new() -> (r: Self)
        ensures
            r@ == Seq::<u8>::empty(),
    {
        RxBuffer { queue: rx_new() }
    }

    /// Stores a byte read from the line; a full buffer drops it. Returns
    /// whether the byte ends a frame.
    pub fn push(&mut self, b: u8) -> (eof: bool)
        ensures
            eof == (b == 0),
            old(self)@.len() < rx_capacity() ==> final(self)@ == old(self)@.push(b),
            old(self)@.len() >= rx_capacity() ==> final(self)@ == old(self)@,
    {
        let _ = rx_enqueue(&mut self.queue, b);
        b == 0
    }

    /// Takes the bytes of the next frame, up to `max` of them: through the
    /// first zero byte, or as many as there are.
    pub fn take_frame(&mut self, max: usize) -> (frame: Vec<u8>)
        ensures
            frame_cut(old(self)@, max as int, frame@.len() as int),
            frame@ == old(self)@.take(frame@.len() as int),
            final(self)@ == old(self)@.skip(frame@.len() as int),
    {
        let ghost c = self@;
        let mut frame: Vec<u8> = Vec::new();
        while frame.len() < max
            invariant
                c == old(self)@,
                frame.len() <= max,
                frame@.len() <= c.len(),
                frame@ == c.take(frame@.len() as int),
                self@ == c.skip(frame@.len() as int),
                forall|i: int| 0 <= i < frame@.len() ==> c[i] != 0,
            decreases max - frame.len(),
        {
            let k = frame.len();
            match rx_dequeue(&mut self.queue) {
                Some(b) => {
                    assert(c.skip(k as int)[0] == c[k as int]);
                    frame.push(b);
                    proof {
                        assert(c.take(k + 1) =~= c.take(k as int).push(c[k as int]));
                        assert(c.skip(k as int).drop_first() =~= c.skip(k + 1));
                    }
                    if b == 0 {
                        return frame;
                    }
                },
                None => {
                    assert(c.len() == k);
                    return frame;
                },
            }
        }
        frame
    }
}

impl<'p, const MTU: usize> UartFrame<'p, MTU> {
    /// The frame for `payload`, as its bytes go on the line; a payload that
    /// is too long is invalid data.
    pub fn encode_payload(payload: &[u8]) -> (r: Result<Vec<u8>, InterfaceError>)
        requires
            mtu_fits(MTU as int),
        ensures
            payload@.len() > MTU ==> r == Err::<Vec<u8>, InterfaceError>(
                InterfaceError::InvalidData,
            ),
            payload@.len() <= MTU ==> (r matches Ok(bytes) && bytes@ == cobs_encoding(
                frame_body(payload@),
            ) && frame_payload(bytes@.push(0u8)) == Some(payload@) && on_line(
                bytes@,
                encoded_len(MTU + 4int) + 1,
            )),
    {
        let mut buf: Vec<u8> = vec![0u8; UartFrame::<MTU>::max_encoded_len()];
        let frame = UartFrame::<MTU> { pl: payload };
        proof {
            if payload@.len() <= MTU {
                lemma_encoded_len_monotone(payload@.len() + 4int, MTU + 4int);
            }
        }
        match frame.encode(buf.as_mut_slice()) {
            Ok(n) => {
                buf.truncate(n);
                Ok(buf)
            },
            Err(()) => Err(InterfaceError::InvalidData),
        }
    }

    /// Takes the next frame out of `rx` and decodes it; a frame that does
    /// not decode is invalid data.
    ///
    /// The frame is cut at the room that an encoded frame takes.
    pub fn take_payload(rx: &mut RxBuffer) -> (r: Result<Vec<u8>, InterfaceError>)
        requires
            mtu_fits(MTU as int),
        ensures
            exists|k: int|
                frame_cut(old(rx)@, encoded_len(MTU + 4int) + 1, k) && final(rx)@ == old(
                    rx,
                )@.skip(k) && match frame_payload(old(rx)@.take(k)) {
                    None => r == Err::<Vec<u8>, InterfaceError>(InterfaceError::InvalidData),
                    Some(p) => r matches Ok(pl) && pl@ == p,
                },
    {
        let mut frame = rx.take_frame(UartFrame::<MTU>::max_encoded_len());
        let ghost bytes = frame@;
        let ghost k = frame@.len() as int;
        assert(frame_cut(old(rx)@, encoded_len(MTU + 4int) + 1, k));
        assert(bytes == old(rx)@.take(k));
        let res = UartFrame::<MTU>::decode(frame.as_mut_slice());
        match res {
            Ok(n) => {
                let ghost decoded = frame@;
                assert(frame_payload(bytes) is Some);
                let ghost p = frame_payload(bytes)->0;
                assert(n == p.len());
                assert(decoded.take(n as int) == p);
                frame.truncate(n);
                assert(frame@ =~= p);
                Ok(frame)
            },
            Err(()) => {
                assert(frame_payload(old(rx)@.take(k)) is None);
                Err(InterfaceError::InvalidData)
            },
        }
    }
}

} // verus!
