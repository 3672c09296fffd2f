//! Walking through a packet while building its protocol tree: the packet bytes with a
//! read cursor, and where each tree item and subtree goes.

use vstd::prelude::*;

use crate::protocol::{ExpertFieldHandle, Protocol, ROOT_ETT_ID};
use crate::types::Encoding;

verus! {

/// What a [`Tvb`] is: the captured bytes of the buffer, the length the packet was
/// reported to have (more than was captured when the capture was truncated), where the
/// current view of it starts, and the read cursor.
pub struct TvbView {
    pub data: Seq<u8>,
    pub reported: i32,
    pub start: i32,
    pub offset: i32,
}

/// A packet buffer with a read cursor.
#[derive(Clone, Copy)]
pub struct Tvb<'a> {
    data: &'a [u8],
    reported: i32,
    start: i32,
    offset: i32,
}

impl<'a> View for Tvb<'a> {
    type V = TvbView;

    closed spec fn view(&self) -> TvbView {
        TvbView { data: self.data@, reported: self.reported, start: self.start, offset: self.offset }
    }
}

/// How many captured bytes a buffer of `len` captured bytes holds from `offset` on. A
/// negative offset counts back from the end; an offset outside the buffer leaves none.
pub open spec fn captured_remaining(len: int, offset: int) -> int {
    if 0 <= offset <= len {
        len - offset
    } else if offset < 0 && -offset <= len {
        -offset
    } else {
        0
    }
}

/// The unsigned 16-bit value held by the bytes `b0`, `b1` (in buffer order) read in the
/// given byte order; every encoding other than big-endian reads little-endian.
pub open spec fn u16_of(b0: u8, b1: u8, encoding: Encoding) -> int {
    match encoding {
        Encoding::BigEndian => b0 * 256 + b1,
        _ => b1 * 256 + b0,
    }
}

impl<'a> Tvb<'a> {
    /// The buffer fits the 32-bit offsets that Wireshark uses, and no more bytes were
    /// captured than the packet was reported to have.
    #[verifier::type_invariant]
    spec fn fits(self) -> bool {
        self.data@.len() <= self.reported
    }

    /// A buffer over the whole packet `data`, read from its first byte.
    pub fn new(data: &'a [u8]) -> (t: Self)
        requires
            data@.len() <= i32::MAX,
        ensures
            t@ == (TvbView { data: data@, reported: data@.len() as i32, start: 0, offset: 0 }),
    {
        Tvb { data, reported: data.len() as i32, start: 0, offset: 0 }
    }

    /// A buffer over the captured bytes `data` of a packet reported to be `reported` bytes
    /// long, read from its first byte.
    pub fn with_reported_length(data: &'a [u8], reported: i32) -> (t: Self)
        requires
            data@.len() <= reported,
        ensures
            t@ == (TvbView { data: data@, reported, start: 0, offset: 0 }),
    {
        Tvb { data, reported, start: 0, offset: 0 }
    }

    /// The same buffer viewed from `start`, with the cursor at `offset`.
    pub fn with_cursor(&self, start: i32, offset: i32) -> (t: Self)
        ensures
            t@ == (TvbView { start, offset, ..self@ }),
    {
        proof {
            use_type_invariant(self);
        }
        Tvb { data: self.data, reported: self.reported, start, offset }
    }

    pub fn start(&self) -> (r: i32)
        ensures
            r == self@.start,
    {
        self.start
    }

    pub fn offset(&self) -> (r: i32)
        ensures
            r == self@.offset,
    {
        self.offset
    }

    /// The bytes of the buffer.
    pub fn bytes(&self) -> (r: &'a [u8])
        ensures
            r@ == self@.data,
    {
        self.data
    }

    /// Reads the byte under the cursor and moves the cursor past it.
    pub fn get_uint8(&mut self, _offset: i32) -> (r: u8)
        requires
            0 <= old(self)@.offset < old(self)@.data.len(),
        ensures
            r == old(self)@.data[old(self)@.offset as int],
            final(self)@ == (TvbView { offset: (old(self)@.offset + 1) as i32, ..old(self)@ }),
    {
        proof {
            use_type_invariant(&*self);
        }
        let o = self.offset as usize;
        let r = self.data[o];
        self.offset = self.offset + 1;
        r
    }

    /// Reads the two bytes under the cursor as an unsigned 16-bit value in the given byte
    /// order and moves the cursor past them.
    pub fn get_uint16(&mut self, _offset: i32, encoding: Encoding) -> (r: u16)
        requires
            0 <= old(self)@.offset,
            old(self)@.offset + 2 <= old(self)@.data.len(),
        ensures
            r == u16_of(
                old(self)@.data[old(self)@.offset as int],
                old(self)@.data[old(self)@.offset + 1],
                encoding,
            ),
            final(self)@ == (TvbView { offset: (old(self)@.offset + 2) as i32, ..old(self)@ }),
    {
        proof {
            use_type_invariant(&*self);
        }
        let o = self.offset as usize;
        let b0 = self.data[o] as u16;
        let b1 = self.data[o + 1] as u16;
        let r = match encoding {
            Encoding::BigEndian => b0 * 256 + b1,
            _ => b1 * 256 + b0,
        };
        self.offset = self.offset + 2;
        r
    }

    /// A buffer over the bytes from `offset` to the end, read from its first byte; it is
    /// reported to be as long as what remains of this one.
    pub fn new_subset_remaining(&self, offset: i32) -> (r: Option<Tvb<'a>>)
        requires
            0 <= offset <= self@.data.len(),
        ensures
            r matches Some(t) && t@ == (TvbView {
                data: self@.data.subrange(offset as int, self@.data.len() as int),
                reported: (self@.reported - offset) as i32,
                start: 0,
                offset: 0,
            }),
    {
        proof {
            use_type_invariant(self);
        }
        let (_, rest) = self.data.split_at(offset as usize);
        Some(Tvb { data: rest, reported: self.reported - offset, start: 0, offset: 0 })
    }

    /// The length the packet was reported to have.
    pub fn length(&self) -> (r: i32)
        ensures
            r == self@.reported,
    {
        self.reported
    }

    /// How many captured bytes the buffer holds from `offset` on; a negative offset counts
    /// back from the end, and an offset outside the buffer leaves none.
    pub fn remaining_length(&self, offset: i32) -> (r: i32)
        ensures
            r == captured_remaining(self@.data.len() as int, offset as int),
    {
        proof {
            use_type_invariant(self);
        }
        let len = self.data.len() as i32;
        if 0 <= offset && offset <= len {
            len - offset
        } else if offset < 0 && offset >= -len {
            -offset
        } else {
            0
        }
    }
}

/// Where a new tree item goes: the field's handle, and the part of the buffer it covers.
/// `tvb` is the item's own view of the buffer, starting and positioned at the item.
pub struct ItemPlacement<'a> {
    pub hf: i32,
    pub offset: i32,
    pub length: i32,
    pub tvb: Tvb<'a>,
}

/// Where a new subtree goes: the handle of the field that labels it, the handle of its
/// ETT, the offset it starts at, and the tree that items of the subtree are added to.
pub struct SubtreePlacement<'a, D> {
    pub hf: i32,
    pub ett: i32,
    pub offset: i32,
    pub tree: Tree<'a, D>,
}

/// The state of a protocol tree under construction: the protocol whose fields are added,
/// and the buffer with its cursor.
pub struct Tree<'a, D> {
    protocol: &'a Protocol<D>,
    pub tvb: Tvb<'a>,
}

impl<'a, D> Tree<'a, D> {
    pub closed spec fn spec_protocol(&self) -> &'a Protocol<D> {
        self.protocol
    }

    pub closed spec fn spec_tvb(&self) -> TvbView {
        self.tvb@
    }

    /// The tree of a packet whose bytes are `tvb`, for `protocol`.
    pub fn new(protocol: &'a Protocol<D>, tvb: Tvb<'a>) -> (t: Self)
        ensures
            t.spec_protocol() == protocol,
            t.spec_tvb() == tvb@,
    {
        Tree { protocol, tvb }
    }

    pub fn protocol(&self) -> (r: &'a Protocol<D>)
        ensures
            r == self.spec_protocol(),
    {
        self.protocol
    }

    /// The protocol's handle and the handle of its root ETT, under which the whole
    /// protocol's subtree is shown.
    pub fn root_handles(&self) -> (r: (i32, i32))
        requires
            self.spec_protocol().wf(),
            self.spec_protocol()@.ett_handles.contains_key(ROOT_ETT_ID@),
        ensures
            r == (self.spec_protocol()@.proto_handle, self.spec_protocol()@.ett_handles[ROOT_ETT_ID@]),
    {
        (self.protocol.get_proto_handle(), self.protocol.get_ett_handle(ROOT_ETT_ID))
    }

    /// The length the packet was reported to have.
    pub fn get_reported_length(&self) -> (r: i32)
        ensures
            r == self.spec_tvb().reported,
    {
        self.tvb.length()
    }

    /// Places an item of field `field_id`, `length` bytes long, at the cursor and moves
    /// the cursor past it. Nothing happens, and `None` comes back, when the protocol has
    /// no such field.
    pub fn add_item(&mut self, field_id: &str, length: i32, _encoding: Encoding) -> (r: Option<
        ItemPlacement<'a>,
    >)
        requires
            old(self).spec_protocol().wf(),
            old(self).spec_protocol()@.field_handles.contains_key(field_id@) ==> i32::MIN
                <= old(self).spec_tvb().offset + length <= i32::MAX,
        ensures
            final(self).spec_protocol() == old(self).spec_protocol(),
            r is None <==> !old(self).spec_protocol()@.field_handles.contains_key(field_id@),
            r is None ==> final(self).spec_tvb() == old(self).spec_tvb(),
            r matches Some(p) ==> {
                &&& p.hf == old(self).spec_protocol()@.field_handles[field_id@]
                &&& p.offset == old(self).spec_tvb().offset
                &&& p.length == length
                &&& p.tvb@ == (TvbView {
                    start: old(self).spec_tvb().offset,
                    ..old(self).spec_tvb()
                })
                &&& final(self).spec_tvb() == (TvbView {
                    offset: (old(self).spec_tvb().offset + length) as i32,
                    ..old(self).spec_tvb()
                })
            },
    {
        let hf = match self.protocol.get_field_handle(field_id) {
            Some(h) => h.handle,
            None => return None,
        };
        let offset = self.tvb.offset();
        let item_tvb = self.tvb.with_cursor(offset, offset);
        self.tvb = self.tvb.with_cursor(self.tvb.start(), offset + length);
        Some(ItemPlacement { hf, offset, length, tvb: item_tvb })
    }

    /// Places a subtree labelled by field `field_id`, using ETT `ett_id`, at the cursor.
    /// The subtree shares this tree's buffer and cursor. `None` comes back when the
    /// protocol has no such field.
    pub fn add_subtree(&self, field_id: &str, ett_id: &str) -> (r: Option<SubtreePlacement<'a, D>>)
        requires
            self.spec_protocol().wf(),
            self.spec_protocol()@.field_handles.contains_key(field_id@)
                ==> self.spec_protocol()@.ett_handles.contains_key(ett_id@),
        ensures
            r is None <==> !self.spec_protocol()@.field_handles.contains_key(field_id@),
            r matches Some(p) ==> {
                &&& p.hf == self.spec_protocol()@.field_handles[field_id@]
                &&& p.ett == self.spec_protocol()@.ett_handles[ett_id@]
                &&& p.offset == self.spec_tvb().offset
                &&& p.tree.spec_protocol() == self.spec_protocol()
                &&& p.tree.spec_tvb() == self.spec_tvb()
            },
    {
        let hf = match self.protocol.get_field_handle(field_id) {
            Some(h) => h.handle,
            None => return None,
        };
        let ett = self.protocol.get_ett_handle(ett_id);
        let offset = self.tvb.offset();
        Some(SubtreePlacement {
            hf,
            ett,
            offset,
            tree: Tree { protocol: self.protocol, tvb: self.tvb },
        })
    }

    /// Ends `subtree`: its length is how far its cursor moved from the start of its view,
    /// and this tree's cursor continues from where the subtree's stopped. Returns the
    /// length to give the subtree's item.
    pub fn end_subtree(&mut self, subtree: &Tree<'a, D>) -> (len: i32)
        requires
            i32::MIN <= subtree.spec_tvb().offset - subtree.spec_tvb().start <= i32::MAX,
        ensures
            len == subtree.spec_tvb().offset - subtree.spec_tvb().start,
            final(self).spec_protocol() == old(self).spec_protocol(),
            final(self).spec_tvb() == (TvbView { offset: subtree.spec_tvb().offset, ..old(self).spec_tvb() }),
    {
        let length = subtree.tvb.offset() - subtree.tvb.start();
        self.tvb = self.tvb.with_cursor(self.tvb.start(), subtree.tvb.offset());
        length
    }

    /// The handles of expert info `expert_id`, if the protocol registered it.
    pub fn add_expert_info(&self, expert_id: &str) -> (r: Option<ExpertFieldHandle>)
        requires
            self.spec_protocol().wf(),
        ensures
            match r {
                Some(h) => self.spec_protocol()@.expert_handles.contains_key(expert_id@) && (
                h.ei, h.hf) == self.spec_protocol()@.expert_handles[expert_id@],
                None => !self.spec_protocol()@.expert_handles.contains_key(expert_id@),
            },
    {
        self.protocol.get_expert_field(expert_id)
    }

    /// A tree of the same protocol over another buffer.
    pub fn with_tvb(&self, tvb: Tvb<'a>) -> (t: Self)
        ensures
            t.spec_protocol() == self.spec_protocol(),
            t.spec_tvb() == tvb@,
    {
        Tree { protocol: self.protocol, tvb }
    }

    /// The bytes from the cursor to the end of the buffer: the input of a transformation
    /// (decompression, decryption) whose output is dissected as a new buffer.
    pub fn transform_source(&self) -> (r: &'a [u8])
        requires
            0 <= self.spec_tvb().offset <= self.spec_tvb().data.len(),
        ensures
            r@ == self.spec_tvb().data.subrange(
                self.spec_tvb().offset as int,
                self.spec_tvb().data.len() as int,
            ),
    {
        let bytes = self.tvb.bytes();
        let (_, rest) = bytes.split_at(self.tvb.offset() as usize);
        rest
    }
}

} // verus!
