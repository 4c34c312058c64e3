//! The frame codec: length-prefixed messages on one byte stream. A frame is
//! a fixed 20-byte header — payload length, channel, two seek-offset words,
//! and flags, each big-endian — followed by the payload.

use vstd::prelude::*;

use bytes::BytesMut;

use crate::buf::{
    buf_as_slice, buf_data, buf_from_slice, buf_get_u32, buf_len, buf_put_slice, buf_put_u32,
    buf_split_to,
};
use crate::error::Error;
use crate::tag_struct::{norm_values, value_encodable, values_bytes, TagStruct};
use crate::wire::{be32, be32_val, lemma_be32_of_be32_val, lemma_be32_val_of_be32};

verus! {

/// The channel value that marks a command frame; any other value is the
/// server-assigned index of a stream.
pub const COMMAND_CHANNEL: u32 = 0xFFFF_FFFF;

/// The largest payload the decoder accepts; longer frames are rejected to
/// keep a hostile length field from forcing a huge allocation.
pub const MAX_PAYLOAD: u32 = 0x7FFF_FFFF;

/// One message on the wire: the header fields and the payload.
pub struct Frame {
    pub channel: u32,
    pub offset_hi: u32,
    pub offset_low: u32,
    pub flags: u32,
    pub data: BytesMut,
}

/// The mathematical shape of a `Frame`.
pub struct FrameModel {
    pub channel: u32,
    pub offset_hi: u32,
    pub offset_low: u32,
    pub flags: u32,
    pub data: Seq<u8>,
}

impl View for Frame {
    type V = FrameModel;

    open spec fn view(&self) -> FrameModel {
        FrameModel {
            channel: self.channel,
            offset_hi: self.offset_hi,
            offset_low: self.offset_low,
            flags: self.flags,
            data: buf_data(self.data),
        }
    }
}

/// The wire bytes of a frame: the five header words, then the payload.
pub open spec fn frame_wire(f: FrameModel) -> Seq<u8> {
    be32(f.data.len() as u32) + be32(f.channel) + be32(f.offset_hi) + be32(f.offset_low) + be32(
        f.flags,
    ) + f.data
}

/// Whether a byte stream opens with a length field the decoder refuses.
pub open spec fn header_oversize(p: Seq<u8>) -> bool {
    p.len() >= 4 && be32_val(p.take(4)) > MAX_PAYLOAD
}

/// Whether a byte stream holds one complete, acceptable frame at its front.
pub open spec fn frame_ready(p: Seq<u8>) -> bool {
    &&& p.len() >= 4
    &&& be32_val(p.take(4)) <= MAX_PAYLOAD
    &&& p.len() >= 20 + be32_val(p.take(4))
}

/// The frame at the front of a byte stream; meaningful when `frame_ready`.
pub open spec fn spec_decode_frame(p: Seq<u8>) -> FrameModel {
    FrameModel {
        channel: be32_val(p.subrange(4, 8)),
        offset_hi: be32_val(p.subrange(8, 12)),
        offset_low: be32_val(p.subrange(12, 16)),
        flags: be32_val(p.subrange(16, 20)),
        data: p.subrange(20, 20 + be32_val(p.take(4))),
    }
}

/// Law: a frame's wire bytes, wherever they open a byte stream, are one
/// ready frame; decoding them yields that frame back and leaves exactly the
/// bytes that followed.
pub proof fn lemma_frame_round_trip(f: FrameModel, rest: Seq<u8>)
    requires
        f.data.len() <= MAX_PAYLOAD,
    ensures
        frame_ready(frame_wire(f) + rest),
        spec_decode_frame(frame_wire(f) + rest) == f,
        (frame_wire(f) + rest).skip(20 + f.data.len() as int) == rest,
{
    let p = frame_wire(f) + rest;
    let l = f.data.len() as u32;
    lemma_be32_val_of_be32(l);
    lemma_be32_val_of_be32(f.channel);
    lemma_be32_val_of_be32(f.offset_hi);
    lemma_be32_val_of_be32(f.offset_low);
    lemma_be32_val_of_be32(f.flags);
    assert(p.take(4) =~= be32(l));
    assert(p.subrange(4, 8) =~= be32(f.channel));
    assert(p.subrange(8, 12) =~= be32(f.offset_hi));
    assert(p.subrange(12, 16) =~= be32(f.offset_low));
    assert(p.subrange(16, 20) =~= be32(f.flags));
    assert(p.subrange(20, 20 + l as int) =~= f.data);
    assert(p.skip(20 + f.data.len() as int) =~= rest);
}

impl Frame {
    /// Wraps an encoded tag-struct as a command-channel frame. Fails only
    /// when a value of the payload cannot be encoded.
    pub fn command(packet: &TagStruct) -> (r: Result<Frame, Error>)
        ensures
            r matches Ok(f) ==> f@.channel == COMMAND_CHANNEL && f@.offset_hi == 0 && f@.offset_low
                == 0 && f@.flags == 0 && f@.data == values_bytes(norm_values(packet@)),
            r is Ok <==> (forall|i: int|
                0 <= i < packet@.len() ==> value_encodable(#[trigger] packet@[i])),
            r matches Err(e) ==> e == Error::PayloadTooLarge,
    {
        let data = match packet.to_vec() {
            Ok(d) => d,
            Err(e) => {
                return Err(e);
            },
        };
        Ok(
            Frame {
                channel: COMMAND_CHANNEL,
                offset_hi: 0,
                offset_low: 0,
                flags: 0,
                data: buf_from_slice(data.as_slice()),
            },
        )
    }

    /// Whether this frame belongs to the command channel.
    pub fn is_command_frame(&self) -> (r: bool)
        ensures
            r == (self@.channel == COMMAND_CHANNEL),
    {
        self.channel == COMMAND_CHANNEL
    }
}

/// Serializes frames onto a byte stream.
pub struct Encoder;

impl Encoder {
    pub fn new() -> Encoder {
        Encoder
    }

    /// Appends the frame's header and payload, contiguously and in order;
    /// nothing else is written. Fails, writing nothing, exactly when the
    /// payload length does not fit the 32-bit length field.
    pub fn encode(&mut self, frame: Frame, dst: &mut BytesMut) -> (r: Result<(), Error>)
        requires
            buf_data(*old(dst)).len() + 20 + frame@.data.len() <= usize::MAX / 2,
        ensures
            r matches Ok(()) ==> buf_data(*final(dst)) == buf_data(*old(dst)) + frame_wire(frame@),
            r is Ok <==> frame@.data.len() <= u32::MAX,
            r matches Err(e) ==> e == Error::PayloadTooLarge && buf_data(*final(dst)) == buf_data(
                *old(dst),
            ),
    {
        let len = buf_len(&frame.data);
        if len > u32::MAX as usize {
            return Err(Error::PayloadTooLarge);
        }
        buf_put_u32(dst, len as u32);
        buf_put_u32(dst, frame.channel);
        buf_put_u32(dst, frame.offset_hi);
        buf_put_u32(dst, frame.offset_low);
        buf_put_u32(dst, frame.flags);
        buf_put_slice(dst, buf_as_slice(&frame.data));
        proof {
            assert(buf_data(*dst) =~= buf_data(*old(dst)) + frame_wire(frame@));
        }
        Ok(())
    }
}

/// Pulls frames out of a byte stream, restartable across partial reads: each
/// call consumes what it can and reports one frame as soon as its last byte
/// has arrived.
///
/// The decoder's progress is its `pending` stream: the buffered bytes,
/// prefixed by the length word already consumed, if any. Each contract
/// speaks of the pending stream before and after the call.
pub struct Decoder {
    data_len: Option<u32>,
}

impl Decoder {
    /// The length word already consumed from the stream, if any.
    pub closed spec fn data_len(self) -> Option<u32> {
        self.data_len
    }

    /// A consumed length word was within bounds.
    pub open spec fn wf(self) -> bool {
        self.data_len() matches Some(l) ==> l <= MAX_PAYLOAD
    }

    /// The byte stream this decoder still has to account for, given its
    /// buffered bytes.
    pub open spec fn pending(self, buf: Seq<u8>) -> Seq<u8> {
        match self.data_len() {
            None => buf,
            Some(l) => be32(l) + buf,
        }
    }

    /// A fresh decoder, waiting for a header.
    pub fn new() -> (d: Decoder)
        ensures
            d.wf(),
            d.data_len() is None,
    {
        Decoder { data_len: None }
    }

    /// Consumes buffered bytes and reports the frame at the front of the
    /// pending stream, if it is complete: exactly its bytes are consumed.
    /// Reports nothing when no complete frame has arrived, consuming nothing
    /// from the pending stream. Fails exactly when the pending length field
    /// exceeds the payload bound; such an error is fatal to the connection
    /// and the decoder is not reused after it.
    pub fn decode(&mut self, src: &mut BytesMut) -> (r: Result<Option<Frame>, Error>)
        requires
            old(self).wf(),
        ensures
            final(self).wf(),
            ({
                let p = old(self).pending(buf_data(*old(src)));
                let q = final(self).pending(buf_data(*final(src)));
                &&& (r matches Ok(of) ==> (of matches Some(f) ==> frame_ready(p) && f@
                    == spec_decode_frame(p) && q == p.skip(20 + f@.data.len() as int) && final(self).data_len() is None))
                &&& (r matches Ok(of) ==> (of is None ==> q == p && !frame_ready(p)
                    && !header_oversize(p)))
                &&& (r is Err <==> header_oversize(p))
                &&& (r matches Err(e) ==> e == Error::PayloadTooLarge && final(self).data_len()
                    is None && q == p.skip(4))
                &&& (frame_ready(p) ==> (r matches Ok(of) && of is Some))
            }),
    {
        let ghost p = old(self).pending(buf_data(*old(src)));
        let len: u32 = match self.data_len {
            Some(l) => {
                proof {
                    assert(p.take(4) =~= be32(l));
                    lemma_be32_val_of_be32(l);
                }
                l
            },
            None => {
                if buf_len(src) < 4 {
                    proof {
                        if p.len() >= 4 {
                            assert(false);
                        }
                    }
                    return Ok(None);
                }
                let l = buf_get_u32(src);
                proof {
                    assert(p.take(4) =~= be32(l)) by {
                        assert(be32(l) == buf_data(*old(src)).take(4));
                    }
                    lemma_be32_val_of_be32(l);
                }
                if l > MAX_PAYLOAD {
                    proof {
                        assert(self.pending(buf_data(*src)) =~= p.skip(4));
                    }
                    return Err(Error::PayloadTooLarge);
                }
                self.data_len = Some(l);
                proof {
                    assert(self.pending(buf_data(*src)) =~= p);
                }
                l
            },
        };
        let ghost mid = buf_data(*src);
        proof {
            assert(self.pending(mid) == p);
            assert(p =~= be32(len) + mid);
            assert(be32_val(p.take(4)) == len);
        }
        let have = buf_len(src);
        let need = (len as usize) + 16;
        if have < need {
            proof {
                assert(p.len() == 4 + mid.len());
                assert(!frame_ready(p));
            }
            return Ok(None);
        }
        self.data_len = None;
        let channel = buf_get_u32(src);
        let offset_hi = buf_get_u32(src);
        let offset_low = buf_get_u32(src);
        let flags = buf_get_u32(src);
        let data = buf_split_to(src, len as usize);
        let frame = Frame { channel, offset_hi, offset_low, flags, data };
        proof {
            let q = self.pending(buf_data(*src));
            assert(frame_ready(p));
            assert(be32(channel) =~= p.subrange(4, 8));
            assert(be32(offset_hi) =~= p.subrange(8, 12));
            assert(be32(offset_low) =~= p.subrange(12, 16));
            assert(be32(flags) =~= p.subrange(16, 20));
            lemma_be32_val_of_be32(channel);
            lemma_be32_val_of_be32(offset_hi);
            lemma_be32_val_of_be32(offset_low);
            lemma_be32_val_of_be32(flags);
            lemma_be32_of_be32_val(p.subrange(4, 8));
            lemma_be32_of_be32_val(p.subrange(8, 12));
            lemma_be32_of_be32_val(p.subrange(12, 16));
            lemma_be32_of_be32_val(p.subrange(16, 20));
            assert(crate::wire::be32_val(p.subrange(4, 8)) == channel);
            assert(crate::wire::be32_val(p.subrange(8, 12)) == offset_hi);
            assert(crate::wire::be32_val(p.subrange(12, 16)) == offset_low);
            assert(crate::wire::be32_val(p.subrange(16, 20)) == flags);
            assert(frame@.data =~= p.subrange(20, 20 + len as int));
            assert(q =~= p.skip(20 + len as int));
        }
        Ok(Some(frame))
    }
}

} // verus!
