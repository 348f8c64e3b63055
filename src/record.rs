//! The raw device record: its fixed-size fields and how names and keys are
//! marshalled into and out of them.
use vstd::prelude::*;
use vstd::string::*;
use vstd::utf8::*;
use crate::error::WgError;
use crate::text::{
    c_content, c_text, find_nul, first_nul_at, lemma_ascii_valid_utf8, lemma_first_nul_unique,
    nul_free, printable_ascii, utf8_str,
};

verus! {

broadcast use group_utf8_lib;

/// Size of the name field: 15 bytes of name and a NUL terminator.
pub const NAME_LEN: usize = 16;

/// Flag bit: replace the device's peers with those of the record.
pub const WGDEVICE_REPLACE_PEERS: u32 = 1;

/// Flag bit: the private key field is set.
pub const WGDEVICE_HAS_PRIVATE_KEY: u32 = 2;

/// Flag bit: the public key field is set.
pub const WGDEVICE_HAS_PUBLIC_KEY: u32 = 4;

/// Flag bit: the listen port field is set.
pub const WGDEVICE_HAS_LISTEN_PORT: u32 = 8;

/// Flag bit: the firewall mark field is set.
pub const WGDEVICE_HAS_FWMARK: u32 = 16;

/// A combinable set of device flag bits.
#[derive(Debug, Clone, Copy, PartialEq, Eq, Structural)]
pub struct DeviceFlags {
    pub bits: u32,
}

impl DeviceFlags {
    /// The set with no flag.
    pub fn empty() -> (r: DeviceFlags)
        ensures
            r.bits == 0,
    {
        DeviceFlags { bits: 0 }
    }

    /// Whether every bit of `flag` is set.
    pub fn contains(&self, flag: u32) -> (r: bool)
        ensures
            r == (self.bits & flag == flag),
    {
        self.bits & flag == flag
    }

    /// The set with the bits of `flag` added.
    pub fn with(&self, flag: u32) -> (r: DeviceFlags)
        ensures
            r.bits == self.bits | flag,
    {
        DeviceFlags { bits: self.bits | flag }
    }
}

/// A device record in the layout that the native library reads and writes.
/// The peer list is not modelled: records built here always carry an empty one.
#[derive(Debug, Clone, Copy, PartialEq, Eq)]
pub struct DeviceRecord {
    pub name: [u8; 16],
    pub ifindex: u32,
    pub flags: DeviceFlags,
    pub public_key: [u8; 32],
    pub private_key: [u8; 32],
    pub fwmark: u32,
    pub listen_port: u16,
}

/// A name fits the name field: at most 15 bytes, none of them NUL.
pub open spec fn valid_name_bytes(b: Seq<u8>) -> bool {
    b.len() < NAME_LEN && nul_free(b)
}

/// The name field holding `b`, padded with NUL bytes.
pub open spec fn name_field(b: Seq<u8>) -> Seq<u8> {
    b + Seq::new((NAME_LEN - b.len()) as nat, |i: int| 0u8)
}

/// The name field for the name `b`, or why it does not fit.
pub open spec fn encoded_name(b: Seq<u8>) -> Result<Seq<u8>, WgError> {
    if b.len() >= NAME_LEN {
        Err(WgError::NameTooLong)
    } else if !nul_free(b) {
        Err(WgError::InvalidName)
    } else {
        Ok(name_field(b))
    }
}

/// What a key field exposes: nothing when it holds no NUL or its content is
/// empty, an error when the content is not printable ASCII, else its text.
pub open spec fn key_text(f: Seq<u8>) -> Result<Option<Seq<char>>, WgError> {
    match c_content(f) {
        None => Ok(None),
        Some(c) => if c.len() == 0 {
            Ok(None)
        } else if printable_ascii(c) {
            Ok(Some(decode_utf8(c)))
        } else {
            Err(WgError::Decode)
        },
    }
}

/// A key field holding no key.
pub open spec fn zero_key() -> [u8; 32] {
    vstd::array::spec_array_fill_for_copy_type::<u8, 32>(0u8)
}

/// A record with no configuration beyond its name.
pub open spec fn blank_record(name: [u8; 16]) -> DeviceRecord {
    DeviceRecord {
        name,
        ifindex: 0,
        flags: DeviceFlags { bits: 0 },
        public_key: zero_key(),
        private_key: zero_key(),
        fwmark: 0,
        listen_port: 0,
    }
}

/// The name field `f` rewritten as its name padded with NUL bytes: every
/// byte after the first NUL is zero.
pub open spec fn padded_name(f: [u8; 16]) -> [u8; 16] {
    choose|a: [u8; 16]| a@ == name_field(c_content(f@)->Some_0)
}

/// The record pushed for the logical fields `c`: its name padded with NUL
/// bytes, its flags, keys, firewall mark and listen port, and no peers.
pub open spec fn push_record(c: DeviceRecord) -> DeviceRecord {
    DeviceRecord {
        name: padded_name(c.name),
        ifindex: 0,
        flags: c.flags,
        public_key: c.public_key,
        private_key: c.private_key,
        fwmark: c.fwmark,
        listen_port: c.listen_port,
    }
}

impl DeviceRecord {
    /// See [`blank_record`].
    pub fn blank(name: [u8; 16]) -> (r: DeviceRecord)
        ensures
            r == blank_record(name),
    {
        DeviceRecord {
            name,
            ifindex: 0,
            flags: DeviceFlags::empty(),
            public_key: [0u8; 32],
            private_key: [0u8; 32],
            fwmark: 0,
            listen_port: 0,
        }
    }

    /// Builds a fresh record for a push from the logical fields of `self`
    /// (see [`push_record`]). `None` when the name field holds no NUL, as
    /// such a name does not fit.
    pub fn for_push(&self) -> (r: Option<DeviceRecord>)
        ensures
            c_content(self.name@) is Some ==> r == Some(push_record(*self)),
            c_content(self.name@) is None ==> r is None,
    {
        let field = self.name.as_slice();
        assert(field@ == self.name@);
        let k = match find_nul(field) {
            None => {
                proof {
                    if exists|k: int| first_nul_at(field@, k) {
                        let k = choose|k: int| first_nul_at(field@, k);
                        assert(field@[k] == 0);
                    }
                }
                return None;
            },
            Some(k) => k,
        };
        proof {
            assert forall|j: int| first_nul_at(field@, j) implies j == k as int by {
                lemma_first_nul_unique(field@, j, k as int);
            }
        }
        let ghost content = field@.subrange(0, k as int);
        assert(c_content(self.name@) == Some(content));
        let mut name: [u8; 16] = [0u8; 16];
        let mut i: usize = 0;
        while i < k
            invariant
                0 <= i <= k < NAME_LEN,
                field@ == self.name@,
                content == field@.subrange(0, k as int),
                name@.len() == NAME_LEN,
                forall|j: int| 0 <= j < i ==> name@[j] == content[j],
                forall|j: int| i <= j < NAME_LEN ==> name@[j] == 0,
            decreases k - i,
        {
            name[i] = field[i];
            i = i + 1;
        }
        assert(name@ =~= name_field(content));
        proof {
            let a = padded_name(self.name);
            assert(a@ == name_field(content));
            assert(a =~= name);
        }
        Some(
            DeviceRecord {
                name,
                ifindex: 0,
                flags: self.flags,
                public_key: self.public_key,
                private_key: self.private_key,
                fwmark: self.fwmark,
                listen_port: self.listen_port,
            },
        )
    }
}

/// A name that fits the field reads back unchanged: the field's content is
/// the name's bytes, which are UTF-8 and decode to the name.
pub proof fn lemma_name_round_trip(name: Seq<char>)
    requires
        valid_name_bytes(encode_utf8(name)),
    ensures
        c_content(name_field(encode_utf8(name))) == Some(encode_utf8(name)),
        valid_utf8(encode_utf8(name)),
        decode_utf8(encode_utf8(name)) == name,
{
    let b = encode_utf8(name);
    let f = name_field(b);
    assert(f.subrange(0, b.len() as int) =~= b);
    assert(first_nul_at(f, b.len() as int));
    let k = choose|k: int| first_nul_at(f, k);
    lemma_first_nul_unique(f, k, b.len() as int);
}

/// Marshals `name` into the fixed 16-byte name field, NUL-padded. A name of
/// 16 bytes or more is refused, never truncated, and so is one holding NUL.
pub fn encode_name(name: &str) -> (r: Result<[u8; 16], WgError>)
    ensures
        r matches Ok(f) ==> encoded_name(name.spec_bytes()) == Ok::<Seq<u8>, WgError>(f@),
        r matches Err(e) ==> encoded_name(name.spec_bytes()) == Err::<Seq<u8>, WgError>(e),
{
    let bytes = name.as_bytes();
    if bytes.len() >= NAME_LEN {
        return Err(WgError::NameTooLong);
    }
    let mut field: [u8; 16] = [0u8; 16];
    let mut i: usize = 0;
    while i < bytes.len()
        invariant
            bytes@ == name.spec_bytes(),
            bytes@.len() < NAME_LEN,
            0 <= i <= bytes@.len(),
            field@.len() == NAME_LEN,
            forall|j: int| 0 <= j < i ==> field@[j] == bytes@[j] && bytes@[j] != 0,
            forall|j: int| i <= j < NAME_LEN ==> field@[j] == 0,
        decreases bytes@.len() - i,
    {
        if bytes[i] == 0 {
            return Err(WgError::InvalidName);
        }
        field[i] = bytes[i];
        i = i + 1;
    }
    assert(field@ =~= name_field(bytes@));
    Ok(field)
}

/// Reads a name field back as text: the bytes before the first NUL, which
/// must be UTF-8. A field without NUL is a decode failure.
pub fn decode_name(field: &[u8; 16]) -> (r: Result<String, WgError>)
    ensures
        r is Ok <==> (c_content(field@) matches Some(c) && valid_utf8(c)),
        r matches Ok(s) ==> s@ == decode_utf8(c_content(field@)->Some_0),
        r matches Err(e) ==> e == WgError::Decode,
{
    c_text(field.as_slice())
}

/// Reads a key field as text: see [`key_text`].
pub fn decode_key(field: &[u8; 32]) -> (r: Result<Option<String>, WgError>)
    ensures
        match r {
            Ok(Some(s)) => key_text(field@) == Ok::<Option<Seq<char>>, WgError>(Some(s@)),
            Ok(None) => key_text(field@) == Ok::<Option<Seq<char>>, WgError>(None),
            Err(e) => key_text(field@) == Err::<Option<Seq<char>>, WgError>(e),
        },
{
    let b = field.as_slice();
    assert(b@ == field@);
    match find_nul(b) {
        None => {
            proof {
                if exists|k: int| first_nul_at(b@, k) {
                    let k = choose|k: int| first_nul_at(b@, k);
                    assert(b@[k] == 0);
                }
            }
            Ok(None)
        },
        Some(k) => {
            proof {
                assert forall|j: int| first_nul_at(b@, j) implies j == k as int by {
                    lemma_first_nul_unique(b@, j, k as int);
                }
                assert(c_content(b@) == Some(b@.subrange(0, k as int)));
            }
            if k == 0 {
                return Ok(None);
            }
            let content = vstd::slice::slice_subrange(b, 0, k);
            let mut i: usize = 0;
            while i < k
                invariant
                    content@.len() == k,
                    k > 0,
                    c_content(field@) == Some(content@),
                    0 <= i <= k,
                    printable_ascii(content@.subrange(0, i as int)),
                decreases k - i,
            {
                let c = content[i];
                if c < 0x20 || c > 0x7e {
                    assert(!(0x20 <= content@[i as int] <= 0x7e));
                    assert(!printable_ascii(content@));
                    return Err(WgError::Decode);
                }
                assert forall|j: int| 0 <= j < i + 1 implies 0x20 <= #[trigger] content@.subrange(
                    0,
                    i + 1,
                )[j] <= 0x7e by {
                    if j < i {
                        assert(content@.subrange(0, i as int)[j] == content@[j]);
                    }
                }
                i = i + 1;
            }
            assert(content@.subrange(0, k as int) =~= content@);
            proof {
                assert forall|j: int| 0 <= j < content@.len() implies #[trigger] content@[j]
                    < 0x80 by {
                    assert(0x20 <= content@[j] <= 0x7e);
                }
                lemma_ascii_valid_utf8(content@);
            }
            match utf8_str(content) {
                None => Err(WgError::Decode),
                Some(s) => Ok(Some(s.to_owned())),
            }
        },
    }
}

} // verus!
