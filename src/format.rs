//! The storage formats: file extension, the bytes written when a segment is
//! created, how one frame is laid down, and the type identifier that keys the
//! lock of a root.
use vstd::prelude::*;

use crate::codec::{encode_frame, encode_header, frame, header, max_frame_len};
use crate::error::StoreError;

verus! {

/// FNV-1a 64-bit offset basis.
pub const FNV_OFFSET: u64 = 0xcbf2_9ce4_8422_2325;

/// FNV-1a 64-bit prime.
pub const FNV_PRIME: u64 = 0x0100_0000_01b3;

/// The 64-bit FNV-1a hash of `s`.
pub open spec fn fnv1a(s: Seq<u8>) -> u64
    decreases s.len(),
{
    if s.len() == 0 {
        FNV_OFFSET
    } else {
        vstd::wrapping::u64_specs::wrapping_mul(fnv1a(s.drop_last()) ^ (s.last() as u64), FNV_PRIME)
    }
}

/// The 64-bit FNV-1a hash of `s`; stable across processes and platforms.
pub fn fnv1a_hash(s: &[u8]) -> (r: u64)
    ensures
        r == fnv1a(s@),
{
    let mut h: u64 = FNV_OFFSET;
    let mut i: usize = 0;
    while i < s.len()
        invariant
            0 <= i <= s@.len(),
            h == fnv1a(s@.subrange(0, i as int)),
        decreases s@.len() - i,
    {
        assert(s@.subrange(0, i + 1).drop_last() =~= s@.subrange(0, i as int));
        h = (h ^ (s[i] as u64)).wrapping_mul(FNV_PRIME);
        i = i + 1;
    }
    assert(s@.subrange(0, s@.len() as int) =~= s@);
    h
}

/// How frames are laid down in a segment.
#[derive(Clone, Copy, Debug, PartialEq, Eq, Structural)]
pub enum FormatKind {
    /// A version header, then length-prefixed frames.
    Binary,
    /// Serialized JSON values, each followed by a newline.
    Json,
    /// Bytes written verbatim.
    Raw,
}

/// The file extension of a format.
pub open spec fn extension_of(k: FormatKind) -> Seq<char> {
    match k {
        FormatKind::Binary => seq!['b', 'i', 'n'],
        FormatKind::Json => seq!['j', 's', 'o', 'n'],
        FormatKind::Raw => seq!['r', 'a', 'w'],
    }
}

/// The type identifier of a format, as ASCII bytes ("Binary", "Json", "Raw").
pub open spec fn type_id_of(k: FormatKind) -> Seq<u8> {
    match k {
        FormatKind::Binary => seq![66u8, 105, 110, 97, 114, 121],
        FormatKind::Json => seq![74u8, 115, 111, 110],
        FormatKind::Raw => seq![82u8, 97, 119],
    }
}

/// The delimiter that follows each JSON value.
pub open spec fn json_delimiter() -> Seq<u8> {
    seq![10u8]
}

/// What is written first into a newly created segment of program `name`.
pub open spec fn initial_bytes_of(k: FormatKind, name: Seq<u8>) -> Option<Seq<u8>> {
    match k {
        FormatKind::Binary => if name.len() <= max_frame_len() {
            Some(header(name))
        } else {
            None
        },
        _ => Some(Seq::empty()),
    }
}

/// What is written for one payload.
pub open spec fn frame_bytes_of(k: FormatKind, p: Seq<u8>) -> Option<Seq<u8>> {
    match k {
        FormatKind::Binary => if p.len() <= max_frame_len() {
            Some(frame(p))
        } else {
            None
        },
        FormatKind::Json => Some(p + json_delimiter()),
        FormatKind::Raw => Some(p),
    }
}

impl FormatKind {
    /// The file extension, without the dot.
    pub fn extension(&self) -> (r: &'static str)
        ensures
            r@ == extension_of(*self),
    {
        proof {
            reveal_strlit("bin");
            reveal_strlit("json");
            reveal_strlit("raw");
        }
        match self {
            FormatKind::Binary => "bin",
            FormatKind::Json => "json",
            FormatKind::Raw => "raw",
        }
    }

    /// The stable type identifier.
    pub fn type_id(&self) -> (r: Vec<u8>)
        ensures
            r@ == type_id_of(*self),
    {
        let r = match self {
            FormatKind::Binary => vec![66u8, 105, 110, 97, 114, 121],
            FormatKind::Json => vec![74u8, 115, 111, 110],
            FormatKind::Raw => vec![82u8, 97, 119],
        };
        assert(r@ =~= type_id_of(*self));
        r
    }

    /// The stable hash of the type identifier, which names the lock file.
    pub fn type_hash(&self) -> (r: u64)
        ensures
            r == fnv1a(type_id_of(*self)),
    {
        let id = self.type_id();
        fnv1a_hash(id.as_slice())
    }

    /// The bytes written when a segment is created: the header for binary
    /// segments, nothing for the others; `InvalidInput` when the program
    /// name is too long for the header.
    pub fn initial_bytes(&self, progname: &[u8]) -> (r: Result<Vec<u8>, StoreError>)
        ensures
            match initial_bytes_of(*self, progname@) {
                Some(b) => r is Ok && r->Ok_0@ == b,
                None => r == Err::<Vec<u8>, StoreError>(StoreError::InvalidInput),
            },
    {
        match self {
            FormatKind::Binary => encode_header(progname),
            _ => Ok(Vec::new()),
        }
    }

    /// The bytes written for one payload (a JSON payload is its serialized
    /// text); `InvalidInput` when a binary payload is too long to frame.
    pub fn frame_bytes(&self, payload: &[u8]) -> (r: Result<Vec<u8>, StoreError>)
        ensures
            match frame_bytes_of(*self, payload@) {
                Some(b) => r is Ok && r->Ok_0@ == b,
                None => r == Err::<Vec<u8>, StoreError>(StoreError::InvalidInput),
            },
    {
        match self {
            FormatKind::Binary => encode_frame(payload),
            FormatKind::Json => {
                let mut out = vstd::slice::slice_to_vec(payload);
                out.push(10u8);
                assert(out@ =~= payload@ + json_delimiter());
                Ok(out)
            },
            FormatKind::Raw => Ok(vstd::slice::slice_to_vec(payload)),
        }
    }
}

} // verus!
